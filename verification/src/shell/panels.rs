//! What the panels of the console show.

use vstd::prelude::*;

use crate::engine::EngineSummary;
use crate::identity::{IdentityRow, TrustContextSummary};
use crate::list;
use crate::model::{
    DashboardState, ObservePosture, PlatformKind, SavedAttachTarget, TargetPlatformStatus,
    TrustPosture,
};
use crate::number;
use crate::number::{decimal, decimal_signed, decimal_size};
use crate::observe::{
    LogEvidenceRow, ObserveSummary, PitFanOutRow, SpanTreeRow, SpanView, TraceView,
};
use crate::operations::{
    AttachTargetSnapshot, LifecycleActionState, OperationsHomeModel, RouterLifecycleAction,
};
use crate::shell;
use crate::shell::{tone_for_trust, Tone, TrustModal};
use crate::text;
use crate::text::{contains, same_text, trim};
use crate::tools;
use crate::tools::{ToolRun, ToolStatus};

verus! {

// ---------------------------------------------------------------------------
// Attach controls
// ---------------------------------------------------------------------------

/// What the attach controls say below themselves.
#[derive(Debug, PartialEq, Eq)]
pub enum BandMessage {
    /// Attaching has failed.
    Failed(String),
    /// A browser cannot start local processes.
    BrowserNote,
    Nothing,
}

/// The attach controls.
#[derive(Debug, PartialEq, Eq)]
pub struct ConnectBand {
    pub target_available: bool,
    pub target_label: String,
    pub target_endpoint: String,
    pub attached: bool,
    pub launch_enabled: bool,
    pub message: BandMessage,
}

/// The platform can attach to a target by itself.
pub open spec fn reachable(target: Option<&SavedAttachTarget>, platform: PlatformKind) -> bool {
    match target {
        Some(target) => target.status_on(platform) is Available,
        None => false,
    }
}

/// Whether the platform can attach to a target by itself.
pub fn target_available(target: Option<&SavedAttachTarget>, platform: PlatformKind) -> (r: bool)
    ensures
        r == reachable(target, platform),
{
    match target {
        Some(target) => target.platform_status(platform).is_available(),
        None => false,
    }
}

pub fn connect_band(
    platform: PlatformKind,
    selected: Option<&SavedAttachTarget>,
    last_probe_at_unix_s: Option<u64>,
    last_attach_error: Option<&String>,
    has_notice: bool,
) -> (r: ConnectBand)
    ensures
        r.target_available == reachable(selected, platform),
        r.target_label@ == (match selected {
            Some(target) => target.label@,
            None => "no target selected"@,
        }),
        r.target_endpoint@ == (match selected {
            Some(target) => target.endpoint@,
            None => "open Settings to add or choose a target"@,
        }),
        r.attached == (last_probe_at_unix_s is Some),
        r.launch_enabled == (platform is Desktop),
        r.message == (match last_attach_error {
            Some(error) => BandMessage::Failed(*error),
            None => if platform is Browser && !has_notice {
                BandMessage::BrowserNote
            } else {
                BandMessage::Nothing
            },
        }),
{
    ConnectBand {
        target_available: target_available(selected, platform),
        target_label: match selected {
            Some(target) => target.label.clone(),
            None => "no target selected".to_string(),
        },
        target_endpoint: match selected {
            Some(target) => target.endpoint.clone(),
            None => "open Settings to add or choose a target".to_string(),
        },
        attached: last_probe_at_unix_s.is_some(),
        launch_enabled: platform == PlatformKind::Desktop,
        message: match last_attach_error {
            Some(error) => BandMessage::Failed(error.clone()),
            None => {
                if platform == PlatformKind::Browser && !has_notice {
                    BandMessage::BrowserNote
                } else {
                    BandMessage::Nothing
                }
            },
        },
    }
}

// ---------------------------------------------------------------------------
// Operations
// ---------------------------------------------------------------------------

/// What the operations board says below its meters.
#[derive(Clone, Copy, Debug, PartialEq, Eq, Structural)]
pub enum BoardMessage {
    /// The last attach error.
    Failed,
    /// The notice on the local forwarder.
    Notice,
    /// That nothing is attached.
    Detached,
    Nothing,
}

/// The operations board.
#[derive(Debug, PartialEq, Eq)]
pub struct OperationsBoard {
    pub attached: bool,
    pub target_available: bool,
    pub start_available: bool,
    pub enabled_actions: usize,
    pub target_label: String,
    pub target_endpoint: String,
    pub target_status: String,
    pub active_tools: usize,
    pub faces: usize,
    pub routes: usize,
    pub traces: usize,
    pub trust_good: bool,
    pub observe_good: bool,
    pub message: BoardMessage,
}

/// The first entry of an action is enabled.
pub open spec fn action_enabled(
    actions: Seq<LifecycleActionState>,
    action: RouterLifecycleAction,
) -> bool
    decreases actions.len(),
{
    if actions.len() == 0 {
        false
    } else if actions[0].action == action {
        actions[0].enabled
    } else {
        action_enabled(actions.drop_first(), action)
    }
}

proof fn lemma_action_enabled(
    actions: Seq<LifecycleActionState>,
    action: RouterLifecycleAction,
    i: int,
)
    requires
        0 <= i < actions.len(),
        actions[i].action == action,
        forall|j: int| 0 <= j < i ==> (#[trigger] actions[j]).action != action,
    ensures
        action_enabled(actions, action) == actions[i].enabled,
    decreases i,
{
    if i > 0 {
        let rest = actions.drop_first();
        assert(rest[i - 1] == actions[i]);
        assert forall|j: int| 0 <= j < i - 1 implies (#[trigger] rest[j]).action != action by {
            assert(rest[j] == actions[j + 1]);
        }
        assert(actions[0].action != action);
        lemma_action_enabled(rest, action, i - 1);
    }
}

proof fn lemma_action_missing(actions: Seq<LifecycleActionState>, action: RouterLifecycleAction)
    requires
        forall|j: int| 0 <= j < actions.len() ==> (#[trigger] actions[j]).action != action,
    ensures
        !action_enabled(actions, action),
    decreases actions.len(),
{
    if actions.len() > 0 {
        let rest = actions.drop_first();
        assert forall|j: int| 0 <= j < rest.len() implies (#[trigger] rest[j]).action != action by {
            assert(rest[j] == actions[j + 1]);
        }
        assert(actions[0].action != action);
        lemma_action_missing(rest, action);
    }
}

/// A run that is under way.
pub open spec fn under_way(run: tools::RunText) -> bool {
    run.status is Running || run.status is Streaming
}

fn count_enabled(actions: &Vec<LifecycleActionState>) -> (r: usize)
    ensures
        r == actions@.filter(|action: LifecycleActionState| action.enabled).len(),
{
    let ghost keep = |action: LifecycleActionState| action.enabled;
    let mut n: usize = 0;
    let mut i: usize = 0;
    proof {
        list::lemma_filter_ends(actions@, keep);
    }
    while i < actions.len()
        invariant
            i <= actions@.len(),
            n <= i,
            keep == (|action: LifecycleActionState| action.enabled),
            n == actions@.take(i as int).filter(keep).len(),
        decreases actions@.len() - i,
    {
        proof {
            list::lemma_filter_next(actions@, keep, i as int);
        }
        if actions[i].enabled {
            n = n + 1;
        }
        i = i + 1;
    }
    assert(actions@.take(i as int) =~= actions@);
    n
}

fn count_under_way(runs: &Vec<ToolRun>) -> (r: usize)
    ensures
        r == tools::run_texts(runs@).filter(|run: tools::RunText| under_way(run)).len(),
{
    let ghost keep = |run: tools::RunText| under_way(run);
    let ghost all = tools::run_texts(runs@);
    let mut n: usize = 0;
    let mut i: usize = 0;
    proof {
        list::lemma_filter_ends(all, keep);
    }
    while i < runs.len()
        invariant
            i <= runs@.len(),
            n <= i,
            all == tools::run_texts(runs@),
            keep == (|run: tools::RunText| under_way(run)),
            n == all.take(i as int).filter(keep).len(),
        decreases runs@.len() - i,
    {
        proof {
            list::lemma_filter_next(all, keep, i as int);
            assert(all[i as int] == runs@[i as int]@);
        }
        if runs[i].status == ToolStatus::Running || runs[i].status == ToolStatus::Streaming {
            n = n + 1;
        }
        i = i + 1;
    }
    assert(all.take(i as int) =~= all);
    n
}

/// The label of the selected target, or that there is none.
pub open spec fn target_label_text(target: Option<AttachTargetSnapshot>) -> Seq<char> {
    match target {
        Some(target) => target.label@,
        None => "no attach target selected"@,
    }
}

/// The endpoint of the selected target, or where one is chosen.
pub open spec fn target_endpoint_text(target: Option<AttachTargetSnapshot>) -> Seq<char> {
    match target {
        Some(target) => target.endpoint@,
        None => "choose an attach target in Settings"@,
    }
}

/// The status of the selected target.
pub open spec fn target_status_text(status: Option<TargetPlatformStatus>) -> Seq<char> {
    match status {
        Some(status) => status.label_text(),
        None => "not selected"@,
    }
}

impl OperationsBoard {
    /// The board of a model, with what the engine, the observer, and the tools
    /// have to show.
    pub open spec fn shows(
        self,
        model: OperationsHomeModel,
        state: DashboardState,
        engine: EngineSummary,
        observe: ObserveSummary,
        runs: Seq<ToolRun>,
        has_error: bool,
        has_notice: bool,
    ) -> bool {
        &&& self.attached == (model.attach_state.bound() is Some)
        &&& self.target_available == (model.selected_target_status == Some(
            TargetPlatformStatus::Available,
        ))
        &&& self.start_available == action_enabled(
            model.lifecycle_actions@,
            RouterLifecycleAction::StartRouter,
        )
        &&& self.enabled_actions == model.lifecycle_actions@.filter(
            |action: LifecycleActionState| action.enabled,
        ).len()
        &&& self.target_label@ == target_label_text(model.selected_target)
        &&& self.target_endpoint@ == target_endpoint_text(model.selected_target)
        &&& self.target_status@ == target_status_text(model.selected_target_status)
        &&& self.active_tools == (if model.attach_state.bound() is Some {
            tools::run_texts(runs).filter(|run: tools::RunText| under_way(run)).len()
        } else {
            0
        })
        &&& self.faces == (if model.attach_state.bound() is Some {
            engine.faces@.len()
        } else {
            0
        })
        &&& self.routes == (if model.attach_state.bound() is Some {
            engine.routes@.len()
        } else {
            0
        })
        &&& self.traces == (if model.attach_state.bound() is Some
            && model.capability_summary.observe_available {
            observe.recent@.len()
        } else {
            0
        })
        &&& self.trust_good == (state.trust is Valid)
        &&& self.observe_good == (state.observe is Enabled)
        &&& self.message == (if has_error {
            BoardMessage::Failed
        } else if has_notice {
            BoardMessage::Notice
        } else if model.attach_state.bound() is None {
            BoardMessage::Detached
        } else {
            BoardMessage::Nothing
        })
    }
}

pub fn operations_board(
    model: &OperationsHomeModel,
    state: &DashboardState,
    engine: &EngineSummary,
    observe: &ObserveSummary,
    runs: &Vec<ToolRun>,
    has_error: bool,
    has_notice: bool,
) -> (r: OperationsBoard)
    ensures
        r.shows(*model, *state, *engine, *observe, runs@, has_error, has_notice),
{
    let attached = model.attach_state.is_attached();
    let start_available = match model.action(RouterLifecycleAction::StartRouter) {
        Some(action) => {
            proof {
                let actions = model.lifecycle_actions@;
                let start = RouterLifecycleAction::StartRouter;
                let i = choose|i: int|
                    {
                        &&& 0 <= i < actions.len()
                        &&& #[trigger] actions[i] == *action
                        &&& action.action == start
                        &&& forall|j: int| 0 <= j < i ==> (#[trigger] actions[j]).action != start
                    };
                lemma_action_enabled(actions, start, i);
            }
            action.enabled
        },
        None => {
            proof {
                lemma_action_missing(
                    model.lifecycle_actions@,
                    RouterLifecycleAction::StartRouter,
                );
            }
            false
        },
    };
    OperationsBoard {
        attached,
        target_available: match model.selected_target_status {
            Some(status) => status.is_available(),
            None => false,
        },
        start_available,
        enabled_actions: count_enabled(&model.lifecycle_actions),
        target_label: match &model.selected_target {
            Some(target) => target.label.clone(),
            None => "no attach target selected".to_string(),
        },
        target_endpoint: match &model.selected_target {
            Some(target) => target.endpoint.clone(),
            None => "choose an attach target in Settings".to_string(),
        },
        target_status: match model.selected_target_status {
            Some(status) => status.label().to_string(),
            None => "not selected".to_string(),
        },
        active_tools: if attached {
            count_under_way(runs)
        } else {
            0
        },
        faces: if attached {
            engine.faces.len()
        } else {
            0
        },
        routes: if attached {
            engine.routes.len()
        } else {
            0
        },
        traces: if attached && model.capability_summary.observe_available {
            observe.recent.len()
        } else {
            0
        },
        trust_good: state.trust == TrustPosture::Valid,
        observe_good: state.observe == ObservePosture::Enabled,
        message: if has_error {
            BoardMessage::Failed
        } else if has_notice {
            BoardMessage::Notice
        } else if !attached {
            BoardMessage::Detached
        } else {
            BoardMessage::Nothing
        },
    }
}

/// What is shown on hovering over an action: why it is not enabled, or its name.
pub fn action_title(action: &LifecycleActionState) -> (r: String)
    ensures
        r@ == (match action.reason {
            Some(reason) => reason@,
            None => action.action.label_text(),
        }),
{
    match &action.reason {
        Some(reason) => reason.clone(),
        None => action.action.label().to_string(),
    }
}

/// While nothing is attached the board counts nothing of an engine.
pub proof fn detached_board_counts_nothing(
    board: OperationsBoard,
    model: OperationsHomeModel,
    state: DashboardState,
    engine: EngineSummary,
    observe: ObserveSummary,
    runs: Seq<ToolRun>,
    has_error: bool,
    has_notice: bool,
)
    requires
        board.shows(model, state, engine, observe, runs, has_error, has_notice),
        !(model.attach_state.shown_as() is Attached),
    ensures
        !board.attached,
        board.faces == 0,
        board.routes == 0,
        board.traces == 0,
        board.active_tools == 0,
        !has_error && !has_notice ==> board.message is Detached,
{
    crate::operations::attached_means_bound(model.attach_state);
}

// ---------------------------------------------------------------------------
// Observe
// ---------------------------------------------------------------------------

/// What the trace feed shows.
#[derive(Clone, Copy, Debug, PartialEq, Eq, Structural)]
pub enum TraceFeed {
    /// That no trace is there.
    NoTraces,
    /// That no trace answers the query.
    NoMatches,
    Rows,
}

pub fn trace_feed(total: usize, shown: usize) -> (r: TraceFeed)
    ensures
        r == (if total == 0 {
            TraceFeed::NoTraces
        } else if shown == 0 {
            TraceFeed::NoMatches
        } else {
            TraceFeed::Rows
        }),
{
    if total == 0 {
        TraceFeed::NoTraces
    } else if shown == 0 {
        TraceFeed::NoMatches
    } else {
        TraceFeed::Rows
    }
}

/// How many traces are shown, and of how many where there is a query.
pub fn trace_count_label(query: &str, shown: usize, total: usize) -> (r: String)
    ensures
        r@ == (if text::trimmed(query@).len() == 0 {
            number::decimal_text(shown as nat) + " traces"@
        } else {
            number::decimal_text(shown as nat) + "/"@ + number::decimal_text(total as nat)
                + " traces"@
        }),
{
    if trim(query).is_empty() {
        decimal_size(shown).concat(" traces")
    } else {
        decimal_size(shown).concat("/").concat(decimal_size(total).as_str()).concat(" traces")
    }
}

/// The labels of a trace.
#[derive(Debug, PartialEq, Eq)]
pub struct TraceLabels {
    pub target: String,
    pub face: String,
    pub status: String,
    pub content_store: String,
    pub strategy: String,
}

/// The name of the first span that is about the content store.
pub open spec fn content_store_span(spans: Seq<SpanView>) -> Option<Seq<char>>
    decreases spans.len(),
{
    if spans.len() == 0 {
        None
    } else if text::occurs(spans[0].name@, "cs"@) {
        Some(spans[0].name@)
    } else {
        content_store_span(spans.drop_first())
    }
}

/// The first strategy that a span names.
pub open spec fn first_strategy(spans: Seq<SpanView>) -> Option<Seq<char>>
    decreases spans.len(),
{
    if spans.len() == 0 {
        None
    } else {
        match spans[0].strategy {
            Some(strategy) => Some(strategy@),
            None => first_strategy(spans.drop_first()),
        }
    }
}

/// A text, or a word where there is none.
pub open spec fn text_or(value: Option<Seq<char>>, word: Seq<char>) -> Seq<char> {
    match value {
        Some(value) => value,
        None => word,
    }
}

fn content_store_label(spans: &Vec<SpanView>) -> (r: String)
    ensures
        r@ == text_or(content_store_span(spans@), "not attributed"@),
{
    assert(spans@.skip(0) =~= spans@);
    let mut i: usize = 0;
    while i < spans.len()
        invariant
            i <= spans@.len(),
            content_store_span(spans@) == content_store_span(spans@.skip(i as int)),
        decreases spans@.len() - i,
    {
        if contains(spans[i].name.as_str(), "cs") {
            return spans[i].name.clone();
        }
        assert(spans@.skip(i as int).drop_first() =~= spans@.skip(i + 1));
        i = i + 1;
    }
    "not attributed".to_string()
}

fn strategy_label(spans: &Vec<SpanView>) -> (r: String)
    ensures
        r@ == text_or(first_strategy(spans@), "not exported"@),
{
    assert(spans@.skip(0) =~= spans@);
    let mut i: usize = 0;
    while i < spans.len()
        invariant
            i <= spans@.len(),
            first_strategy(spans@) == first_strategy(spans@.skip(i as int)),
        decreases spans@.len() - i,
    {
        if let Some(strategy) = &spans[i].strategy {
            return strategy.clone();
        }
        assert(spans@.skip(i as int).drop_first() =~= spans@.skip(i + 1));
        i = i + 1;
    }
    "not exported".to_string()
}

/// The face that a trace came in on.
pub open spec fn incoming_face(spans: Seq<SpanView>) -> Seq<char> {
    if spans.len() > 0 {
        match spans[0].face_id {
            Some(face) => number::signed_text(face as int),
            None => "n/a"@,
        }
    } else {
        "n/a"@
    }
}

pub fn trace_labels(trace: &TraceView) -> (r: TraceLabels)
    ensures
        r.target@ == (if trace.spans@.len() > 0 {
            trace.spans@[0].target@
        } else {
            "unknown"@
        }),
        r.face@ == incoming_face(trace.spans@),
        r.status@ == (if trace.spans@.len() > 0 {
            trace.spans@[0].status.label_text()
        } else {
            "unknown"@
        }),
        r.content_store@ == text_or(content_store_span(trace.spans@), "not attributed"@),
        r.strategy@ == text_or(first_strategy(trace.spans@), "not exported"@),
{
    let content_store = content_store_label(&trace.spans);
    let strategy = strategy_label(&trace.spans);
    if trace.spans.len() == 0 {
        return TraceLabels {
            target: "unknown".to_string(),
            face: "n/a".to_string(),
            status: "unknown".to_string(),
            content_store,
            strategy,
        };
    }
    let root = &trace.spans[0];
    TraceLabels {
        target: root.target.clone(),
        face: match root.face_id {
            Some(face) => decimal_signed(face),
            None => "n/a".to_string(),
        },
        status: root.status.label().to_string(),
        content_store,
        strategy,
    }
}

/// What a log line was matched by.
pub fn match_label(row: &LogEvidenceRow) -> (r: String)
    ensures
        r@ == (if row.matched_by@.len() == 0 {
            "matched"@
        } else {
            "by "@ + row.matched_by@
        }),
{
    if row.matched_by.as_str().is_empty() {
        "matched".to_string()
    } else {
        "by ".to_string().concat(row.matched_by.as_str())
    }
}

/// The number of a log line.
pub fn line_label(row: &LogEvidenceRow) -> (r: String)
    ensures
        r@ == "#"@ + number::decimal_text(row.seq as nat),
{
    "#".to_string().concat(decimal(row.seq).as_str())
}

/// The face of an answer to pending Interests.
pub fn fanout_face_label(row: &PitFanOutRow) -> (r: String)
    ensures
        r@ == (match row.face_id {
            Some(face) => "face "@ + number::signed_text(face as int),
            None => "face n/a"@,
        }),
{
    match row.face_id {
        Some(face) => "face ".to_string().concat(decimal_signed(face).as_str()),
        None => "face n/a".to_string(),
    }
}

/// The Interest of an answer to pending Interests.
pub fn fanout_interest_label(row: &PitFanOutRow) -> (r: String)
    ensures
        r@ == text_or(text::opt_text(row.interest_name), "interest n/a"@),
{
    match &row.interest_name {
        Some(name) => name.clone(),
        None => "interest n/a".to_string(),
    }
}

/// How an answer to pending Interests went.
pub fn fanout_result_label(row: &PitFanOutRow) -> (r: String)
    ensures
        r@ == row.status.label_text() + " / "@ + number::decimal_text(row.duration_us as nat)
            + " us"@,
{
    row.status.label().to_string().concat(" / ").concat(decimal(row.duration_us).as_str()).concat(
        " us",
    )
}

/// How far a span is set in, in pixels.
pub fn indent_px(row: &SpanTreeRow) -> (r: usize)
    requires
        8 + row.depth * 14 <= usize::MAX,
    ensures
        r == 8 + row.depth * 14,
{
    8 + row.depth * 14
}

/// How many children a span has.
pub fn child_label(row: &SpanTreeRow) -> (r: String)
    ensures
        r@ == (if row.child_count == 1 {
            "1 child"@
        } else {
            number::decimal_text(row.child_count as nat) + " children"@
        }),
{
    if row.child_count == 1 {
        "1 child".to_string()
    } else {
        decimal_size(row.child_count).concat(" children")
    }
}

// ---------------------------------------------------------------------------
// Trust
// ---------------------------------------------------------------------------

/// The first identity that is active, or the first one.
pub open spec fn shown_identity(identities: Seq<IdentityRow>) -> Option<IdentityRow> {
    match first_active(identities) {
        Some(identity) => Some(identity),
        None => if identities.len() > 0 {
            Some(identities[0])
        } else {
            None
        },
    }
}

/// The first identity that is active.
pub open spec fn first_active(identities: Seq<IdentityRow>) -> Option<IdentityRow>
    decreases identities.len(),
{
    if identities.len() == 0 {
        None
    } else if identities[0].active {
        Some(identities[0])
    } else {
        first_active(identities.drop_first())
    }
}

/// The identity that the console signs with.
pub fn active_identity(summary: &TrustContextSummary) -> (r: Option<IdentityRow>)
    ensures
        r == shown_identity(summary.identities@),
{
    let ghost all = summary.identities@;
    assert(all.skip(0) =~= all);
    let mut i: usize = 0;
    while i < summary.identities.len()
        invariant
            i <= summary.identities@.len(),
            all == summary.identities@,
            first_active(all) == first_active(all.skip(i as int)),
        decreases summary.identities@.len() - i,
    {
        if summary.identities[i].active {
            return Some(summary.identities[i].clone());
        }
        assert(all.skip(i as int).drop_first() =~= all.skip(i + 1));
        i = i + 1;
    }
    if summary.identities.len() > 0 {
        Some(summary.identities[0].clone())
    } else {
        None
    }
}

/// A card of the trust overview.
#[derive(Debug, PartialEq, Eq)]
pub struct TrustCard {
    pub label: &'static str,
    pub value: String,
    pub detail: String,
    pub tone: Tone,
    pub modal: TrustModal,
}

impl TrustCard {
    /// The card with these parts.
    pub open spec fn is(
        self,
        label: Seq<char>,
        value: Seq<char>,
        detail: Seq<char>,
        tone: Tone,
        modal: TrustModal,
    ) -> bool {
        &&& self.label@ == label
        &&& self.value@ == value
        &&& self.detail@ == detail
        &&& self.tone == tone
        &&& self.modal == modal
    }
}

/// The four cards of the trust overview: verifying, signing, management, and
/// what the operator is to do.
pub fn trust_cards(summary: &TrustContextSummary) -> (r: Vec<TrustCard>)
    ensures
        r@.len() == 4,
        r@[0].is(
            "Verify"@,
            summary.posture.label_text(),
            number::decimal_text(summary.contexts@.len()) + " contexts / "@ + number::decimal_text(
                summary.anchors as nat,
            ) + " anchors"@,
            shell::trust_tone(summary.posture),
            TrustModal::Verify,
        ),
        r@[1].is(
            "Sign"@,
            match shown_identity(summary.identities@) {
                Some(identity) => identity.certificate@,
                None => "none"@,
            },
            match shown_identity(summary.identities@) {
                Some(identity) => identity.name@,
                None => "verification only"@,
            },
            if summary.identities@.len() == 0 {
                Tone::Neutral
            } else {
                Tone::Good
            },
            TrustModal::Sign,
        ),
        r@[2].is(
            "Mgmt"@,
            if summary.posture is Unsupported {
                "compat"@
            } else {
                "signed"@
            },
            summary.custody.title@,
            if summary.posture is Unsupported {
                Tone::Neutral
            } else {
                Tone::Good
            },
            TrustModal::Trace,
        ),
        r@[3].is(
            "Action"@,
            if summary.pending_approvals > 0 {
                number::decimal_text(summary.pending_approvals as nat) + " approval"@
            } else {
                summary.action_text()
            },
            summary.namespace@,
            if summary.pending_approvals > 0 {
                Tone::Amber
            } else {
                Tone::Info
            },
            if summary.pending_approvals > 0 {
                TrustModal::Approvals
            } else {
                TrustModal::Adopt
            },
        ),
{
    let unsupported = summary.posture == TrustPosture::Unsupported;
    let pending = summary.pending_approvals > 0;
    let (sign_value, sign_detail) = match active_identity(summary) {
        Some(identity) => (identity.certificate.to_string(), identity.name),
        None => ("none".to_string(), "verification only".to_string()),
    };
    vec![
        TrustCard {
            label: "Verify",
            value: summary.posture.label().to_string(),
            detail: decimal_size(summary.contexts.len()).concat(" contexts / ").concat(
                decimal_size(summary.anchors).as_str(),
            ).concat(" anchors"),
            tone: tone_for_trust(summary.posture),
            modal: TrustModal::Verify,
        },
        TrustCard {
            label: "Sign",
            value: sign_value,
            detail: sign_detail,
            tone: Tone::either(summary.identities.len() == 0, Tone::Neutral, Tone::Good),
            modal: TrustModal::Sign,
        },
        TrustCard {
            label: "Mgmt",
            value: if unsupported {
                "compat".to_string()
            } else {
                "signed".to_string()
            },
            detail: summary.custody.title.to_string(),
            tone: Tone::either(unsupported, Tone::Neutral, Tone::Good),
            modal: TrustModal::Trace,
        },
        TrustCard {
            label: "Action",
            value: if pending {
                decimal_size(summary.pending_approvals).concat(" approval")
            } else {
                summary.action_label().to_string()
            },
            detail: summary.namespace.clone(),
            tone: Tone::either(pending, Tone::Amber, Tone::Info),
            modal: if pending {
                TrustModal::Approvals
            } else {
                TrustModal::Adopt
            },
        },
    ]
}

/// One tone where a text is a word, else another.
pub fn tone_for_word(value: &str, word: &str, yes: Tone, no: Tone) -> (r: Tone)
    ensures
        r == (if value@ == word@ {
            yes
        } else {
            no
        }),
{
    Tone::either(same_text(value, word), yes, no)
}

/// The tone of the outcome of a validation: good where it speaks of validity.
pub fn tone_for_outcome(outcome: &str) -> (r: Tone)
    ensures
        r == (if text::occurs(outcome@, "valid"@) {
            Tone::Good
        } else {
            Tone::Bad
        }),
{
    Tone::either(contains(outcome, "valid"), Tone::Good, Tone::Bad)
}

// ---------------------------------------------------------------------------
// Tools and settings
// ---------------------------------------------------------------------------

/// The result of a run, or a word where there is none.
pub fn result_or(run: &ToolRun, word: &str) -> (r: String)
    ensures
        r@ == text_or(run@.result, word@),
{
    match &run.result {
        Some(result) => result.clone(),
        None => word.to_string(),
    }
}

/// What the banner says of a run that has failed.
pub fn failure_line(run: &ToolRun) -> (r: String)
    ensures
        r@ == run.kind.label_text() + " "@ + run.target_name@ + ": "@ + text_or(
            run@.result,
            "failed"@,
        ),
{
    run.kind.label().to_string().concat(" ").concat(run.target_name.as_str()).concat(": ").concat(
        result_or(run, "failed").as_str(),
    )
}

/// The preview of a rendered configuration, or of the error.
pub fn toml_preview(rendered: Result<String, String>) -> (r: String)
    ensures
        r@ == crate::operations::preview_text(rendered),
{
    match rendered {
        Ok(toml) => toml,
        Err(error) => "# render error: ".to_string().concat(error.as_str()),
    }
}

/// The preview of exported settings, or of the error.
pub fn json_preview(exported: Result<String, String>) -> (r: String)
    ensures
        r@ == (match exported {
            Ok(json) => json@,
            Err(error) => "{\"error\":\""@ + error@ + "\"}"@,
        }),
{
    match exported {
        Ok(json) => json,
        Err(error) => "{\"error\":\"".to_string().concat(error.as_str()).concat("\"}"),
    }
}

// ---------------------------------------------------------------------------
// Laws
// ---------------------------------------------------------------------------

/// The board counts what is there while an engine is bound: its faces, its
/// routes, the tools that are under way, and the traces where they can be
/// observed.
pub proof fn attached_board_counts_what_is_there(
    board: OperationsBoard,
    model: OperationsHomeModel,
    state: DashboardState,
    engine: EngineSummary,
    observe: ObserveSummary,
    runs: Seq<ToolRun>,
    has_error: bool,
    has_notice: bool,
)
    requires
        board.shows(model, state, engine, observe, runs, has_error, has_notice),
        model.attach_state is Attached || model.attach_state is Degraded,
    ensures
        board.attached,
        board.faces == engine.faces@.len(),
        board.routes == engine.routes@.len(),
        model.capability_summary.observe_available ==> board.traces == observe.recent@.len(),
        !model.capability_summary.observe_available ==> board.traces == 0,
        board.active_tools == tools::run_texts(runs).filter(
            |run: tools::RunText| run.status is Running || run.status is Streaming,
        ).len(),
        board.trust_good <==> state.trust is Valid,
        board.observe_good <==> state.observe is Enabled,
        board.target_available <==> model.selected_target_status == Some(
            TargetPlatformStatus::Available,
        ),
        model.selected_target matches Some(target) ==> board.target_label@ == target.label@
            && board.target_endpoint@ == target.endpoint@,
        has_error ==> board.message is Failed,
        !has_error && has_notice ==> board.message is Notice,
        !has_error && !has_notice ==> board.message is Nothing,
{
    let busy = |run: tools::RunText| under_way(run);
    let plain = |run: tools::RunText| run.status is Running || run.status is Streaming;
    assert(busy =~= plain);
}

/// An action is enabled as the first entry for it says, and not where there is
/// none.
pub proof fn first_entry_enables(
    actions: Seq<LifecycleActionState>,
    action: RouterLifecycleAction,
    k: int,
)
    requires
        0 <= k <= actions.len(),
        forall|j: int| 0 <= j < k ==> (#[trigger] actions[j]).action != action,
        k < actions.len() ==> actions[k].action == action,
    ensures
        action_enabled(actions, action) <==> k < actions.len() && actions[k].enabled,
    decreases k,
{
    if k > 0 {
        let rest = actions.drop_first();
        assert(actions[0].action != action);
        assert forall|j: int| 0 <= j < k - 1 implies (#[trigger] rest[j]).action != action by {
            assert(rest[j] == actions[j + 1]);
        }
        if k < actions.len() {
            assert(rest[k - 1] == actions[k]);
        }
        first_entry_enables(rest, action, k - 1);
    }
}

/// The content store shows in the first span that is named after it, and the
/// strategy in the first span that has one.
pub proof fn labels_come_from_the_first_span_that_tells(spans: Seq<SpanView>, k: int)
    requires
        0 <= k <= spans.len(),
    ensures
        (forall|j: int| 0 <= j < k ==> !text::occurs((#[trigger] spans[j]).name@, "cs"@)) && k
            < spans.len() && text::occurs(spans[k].name@, "cs"@) ==> content_store_span(spans)
            == Some(spans[k].name@),
        (forall|j: int| 0 <= j < k ==> !text::occurs((#[trigger] spans[j]).name@, "cs"@)) && k
            == spans.len() ==> content_store_span(spans) is None,
        (forall|j: int| 0 <= j < k ==> (#[trigger] spans[j]).strategy is None) && k < spans.len()
            && spans[k].strategy is Some ==> first_strategy(spans) == Some(spans[k].strategy->0@),
        (forall|j: int| 0 <= j < k ==> (#[trigger] spans[j]).strategy is None) && k == spans.len()
            ==> first_strategy(spans) is None,
    decreases k,
{
    if k > 0 {
        let rest = spans.drop_first();
        labels_come_from_the_first_span_that_tells(rest, k - 1);
        assert forall|j: int| 0 <= j < rest.len() implies #[trigger] rest[j] == spans[j + 1] by {}
        let first = spans[0];
        if forall|j: int| 0 <= j < k ==> !text::occurs((#[trigger] spans[j]).name@, "cs"@) {
            assert(!text::occurs(first.name@, "cs"@));
            assert forall|j: int| 0 <= j < k - 1 implies !text::occurs(
                (#[trigger] rest[j]).name@,
                "cs"@,
            ) by {
                assert(rest[j] == spans[j + 1]);
            }
        }
        if forall|j: int| 0 <= j < k ==> (#[trigger] spans[j]).strategy is None {
            assert(first.strategy is None);
            assert forall|j: int| 0 <= j < k - 1 implies (#[trigger] rest[j]).strategy is None by {
                assert(rest[j] == spans[j + 1]);
            }
        }
    }
}

/// The identity that is shown is the first active one, else the first.
pub proof fn the_active_identity_is_shown(identities: Seq<IdentityRow>, k: int)
    requires
        0 <= k <= identities.len(),
        forall|j: int| 0 <= j < k ==> !(#[trigger] identities[j]).active,
        k < identities.len() ==> identities[k].active,
    ensures
        k < identities.len() ==> shown_identity(identities) == Some(identities[k]),
        k == identities.len() && k > 0 ==> shown_identity(identities) == Some(identities[0]),
        identities.len() == 0 ==> shown_identity(identities) is None,
{
    lemma_first_active(identities, k);
}

proof fn lemma_first_active(identities: Seq<IdentityRow>, k: int)
    requires
        0 <= k <= identities.len(),
        forall|j: int| 0 <= j < k ==> !(#[trigger] identities[j]).active,
        k < identities.len() ==> identities[k].active,
    ensures
        k < identities.len() ==> first_active(identities) == Some(identities[k]),
        k == identities.len() ==> first_active(identities) is None,
    decreases k,
{
    if k > 0 {
        let rest = identities.drop_first();
        assert(!identities[0].active);
        assert forall|j: int| 0 <= j < k - 1 implies !(#[trigger] rest[j]).active by {
            assert(rest[j] == identities[j + 1]);
        }
        if k < identities.len() {
            assert(rest[k - 1] == identities[k]);
        }
        lemma_first_active(rest, k - 1);
    }
}

/// A trace shows the face, the target and the status of its first span; without
/// a span, or without a face on it, it says so.
pub proof fn labels_come_from_the_first_span(trace: TraceView, labels: TraceLabels)
    requires
        call_ensures(trace_labels, (&trace,), labels),
    ensures
        trace.spans@.len() == 0 ==> labels.face@ == "n/a"@ && labels.target@ == "unknown"@
            && labels.status@ == "unknown"@,
        trace.spans@.len() > 0 ==> labels.target@ == trace.spans@[0].target@,
        trace.spans@.len() > 0 && trace.spans@[0].face_id is None ==> labels.face@ == "n/a"@,
        trace.spans@.len() > 0 && trace.spans@[0].face_id is Some ==> labels.face@
            == number::signed_text(trace.spans@[0].face_id->0 as int),
        trace.spans@.len() > 0 && trace.spans@[0].status is Error ==> labels.status@ == "error"@,
        trace.spans@.len() > 0 && trace.spans@[0].status is Okay ==> labels.status@ == "ok"@,
        trace.spans@.len() > 0 && trace.spans@[0].status is Unset ==> labels.status@ == "unset"@,
{
}

} // verus!
