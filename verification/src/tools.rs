//! Structured network testing workflows.
//!
//! A tool run gathers samples while it streams and ends with a result. Runs
//! that talk to a forwarder are driven from outside: a run begins, takes one
//! step for each event, and finishes with what became of the worker.

use vstd::prelude::*;

use crate::engine;
use crate::engine::EngineSummary;
use crate::model;
use crate::model::{socket_path, AttachMode, ForwarderProfile};
use crate::number;
use crate::number::{decimal, decimal_size, two_places};
use crate::observe::traces;
use crate::observe::{filter_traces, ObserveSummary};
use crate::text;
use crate::text::{copy_texts, trim};

verus! {

#[derive(Clone, Copy, Debug, PartialEq, Eq, Structural)]
pub enum ToolKind {
    Ping,
    Peek,
    Put,
    Iperf,
    TraceLookup,
    RouteDiagnostic,
    FaceDiagnostic,
    Export,
}

impl ToolKind {
    /// The text of [`ToolKind::label`].
    pub open spec fn label_text(self) -> Seq<char> {
        match self {
            Self::Ping => "ping"@,
            Self::Peek => "peek"@,
            Self::Put => "put"@,
            Self::Iperf => "iperf"@,
            Self::TraceLookup => "trace lookup"@,
            Self::RouteDiagnostic => "route diagnostic"@,
            Self::FaceDiagnostic => "face diagnostic"@,
            Self::Export => "export"@,
        }
    }

    pub fn label(self) -> (r: &'static str)
        ensures
            r@ == self.label_text(),
    {
        match self {
            Self::Ping => "ping",
            Self::Peek => "peek",
            Self::Put => "put",
            Self::Iperf => "iperf",
            Self::TraceLookup => "trace lookup",
            Self::RouteDiagnostic => "route diagnostic",
            Self::FaceDiagnostic => "face diagnostic",
            Self::Export => "export",
        }
    }
}

#[derive(Clone, Copy, Debug, PartialEq, Eq, Structural)]
pub enum ToolStatus {
    Pending,
    Running,
    Streaming,
    Complete,
    Failed,
    Cancelled,
}

impl ToolStatus {
    /// The text of [`ToolStatus::label`].
    pub open spec fn label_text(self) -> Seq<char> {
        match self {
            Self::Pending => "pending"@,
            Self::Running => "running"@,
            Self::Streaming => "streaming"@,
            Self::Complete => "complete"@,
            Self::Failed => "failed"@,
            Self::Cancelled => "cancelled"@,
        }
    }

    pub fn label(self) -> (r: &'static str)
        ensures
            r@ == self.label_text(),
    {
        match self {
            Self::Pending => "pending",
            Self::Running => "running",
            Self::Streaming => "streaming",
            Self::Complete => "complete",
            Self::Failed => "failed",
            Self::Cancelled => "cancelled",
        }
    }
}

#[derive(Debug, PartialEq, Eq)]
pub struct ToolSample {
    pub label: String,
    pub value: String,
}

/// What [`ToolSample`] says.
#[verifier::ext_equal]
pub struct SampleText {
    pub label: Seq<char>,
    pub value: Seq<char>,
}

impl View for ToolSample {
    type V = SampleText;

    open spec fn view(&self) -> SampleText {
        SampleText {
            label: self.label@,
            value: self.value@,
        }
    }
}

impl Clone for ToolSample {
    fn clone(&self) -> (r: Self)
        ensures
            r == *self,
    {
        ToolSample {
            label: self.label.clone(),
            value: self.value.clone(),
        }
    }
}

/// What rows of [`ToolSample`] say.
pub open spec fn sample_texts(rows: Seq<ToolSample>) -> Seq<SampleText> {
    rows.map_values(|row: ToolSample| row@)
}

#[derive(Debug, PartialEq, Eq)]
pub struct ToolRun {
    pub kind: ToolKind,
    pub target_name: String,
    pub status: ToolStatus,
    pub samples: Vec<ToolSample>,
    pub result: Option<String>,
    pub trace_refs: Vec<String>,
}

/// The mathematical value of a tool run.
#[verifier::ext_equal]
pub struct RunText {
    pub kind: ToolKind,
    pub target_name: Seq<char>,
    pub status: ToolStatus,
    pub samples: Seq<SampleText>,
    pub result: Option<Seq<char>>,
    pub trace_refs: Seq<Seq<char>>,
}

impl View for ToolRun {
    type V = RunText;

    open spec fn view(&self) -> RunText {
        RunText {
            kind: self.kind,
            target_name: self.target_name@,
            status: self.status,
            samples: sample_texts(self.samples@),
            result: text::opt_text(self.result),
            trace_refs: text::string_texts(self.trace_refs@),
        }
    }
}

/// What runs say.
pub open spec fn run_texts(runs: Seq<ToolRun>) -> Seq<RunText> {
    runs.map_values(|run: ToolRun| run@)
}

impl Clone for ToolRun {
    fn clone(&self) -> (r: Self)
        ensures
            r@ == self@,
    {
        let mut samples: Vec<ToolSample> = Vec::new();
        let mut i: usize = 0;
        while i < self.samples.len()
            invariant
                i <= self.samples@.len(),
                samples@ == self.samples@.take(i as int),
            decreases self.samples@.len() - i,
        {
            samples.push(self.samples[i].clone());
            i = i + 1;
            assert(samples@ =~= self.samples@.take(i as int));
        }
        assert(self.samples@.take(i as int) =~= self.samples@);
        ToolRun {
            kind: self.kind,
            target_name: self.target_name.clone(),
            status: self.status,
            samples,
            result: self.result.clone(),
            trace_refs: copy_texts(&self.trace_refs),
        }
    }
}

/// A sample.
pub open spec fn sample(label: Seq<char>, value: Seq<char>) -> SampleText {
    SampleText { label, value }
}

impl RunText {
    /// A run that nothing happened to yet.
    pub open spec fn fresh(kind: ToolKind, target_name: Seq<char>) -> RunText {
        RunText {
            kind,
            target_name,
            status: ToolStatus::Pending,
            samples: seq![],
            result: None,
            trace_refs: seq![],
        }
    }

    pub open spec fn started(self) -> RunText {
        RunText { status: ToolStatus::Running, ..self }
    }

    /// One sample more; a run with a new sample is streaming.
    pub open spec fn with_sample(self, label: Seq<char>, value: Seq<char>) -> RunText {
        RunText {
            status: ToolStatus::Streaming,
            samples: self.samples.push(sample(label, value)),
            ..self
        }
    }

    /// Some samples more.
    pub open spec fn with_samples(self, more: Seq<SampleText>) -> RunText
        decreases more.len(),
    {
        if more.len() == 0 {
            self
        } else {
            self.with_samples(more.drop_last()).with_sample(more.last().label, more.last().value)
        }
    }

    pub open spec fn completed(self, result: Seq<char>) -> RunText {
        RunText { status: ToolStatus::Complete, result: Some(result), ..self }
    }

    pub open spec fn failed(self, message: Seq<char>) -> RunText {
        RunText { status: ToolStatus::Failed, result: Some(message), ..self }
    }

    pub open spec fn cancelled(self) -> RunText {
        RunText {
            status: ToolStatus::Cancelled,
            result: Some("cancelled by operator"@),
            ..self
        }
    }

    pub open spec fn with_trace_ref(self, trace_ref: Seq<char>) -> RunText {
        RunText { trace_refs: self.trace_refs.push(trace_ref), ..self }
    }

    /// The run as exported text.
    pub open spec fn exported(self) -> Seq<char> {
        self.kind.label_text() + " "@ + self.target_name + "\nstatus: "@ + self.status.label_text()
            + "\n"@ + (match self.result {
            Some(result) => "result: "@ + result + "\n"@,
            None => seq![],
        }) + exported_samples(self.samples)
    }
}

/// The samples as exported text, one on each line.
pub open spec fn exported_samples(samples: Seq<SampleText>) -> Seq<char>
    decreases samples.len(),
{
    if samples.len() == 0 {
        seq![]
    } else {
        exported_samples(samples.drop_last()) + samples.last().label + ": "@ + samples.last().value
            + "\n"@
    }
}

// ---------------------------------------------------------------------------
// Configurations
// ---------------------------------------------------------------------------

#[derive(Debug, PartialEq, Eq)]
pub struct PingWorkflowConfig {
    pub target_name: String,
    pub count: u64,
    pub interval_ms: u64,
    pub lifetime_ms: u64,
}

impl Clone for PingWorkflowConfig {
    fn clone(&self) -> (r: Self)
        ensures
            r == *self,
    {
        PingWorkflowConfig {
            target_name: self.target_name.clone(),
            count: self.count,
            interval_ms: self.interval_ms,
            lifetime_ms: self.lifetime_ms,
        }
    }
}

impl PingWorkflowConfig {
    pub fn quick(target_name: &str) -> (r: Self)
        ensures
            r.target_name@ == target_name@,
            r.count == 4,
            r.interval_ms == 200,
            r.lifetime_ms == 1000,
    {
        PingWorkflowConfig {
            target_name: target_name.to_string(),
            count: 4,
            interval_ms: 200,
            lifetime_ms: 1000,
        }
    }
}

/// A throughput test; `F` is the type of its tuning factors.
#[derive(Debug, PartialEq)]
pub struct IperfWorkflowConfig<F> {
    pub target_name: String,
    pub duration_secs: u64,
    pub initial_window: usize,
    pub cc: String,
    pub min_window: Option<F>,
    pub max_window: Option<F>,
    pub ai: Option<F>,
    pub md: Option<F>,
    pub cubic_c: Option<F>,
    pub lifetime_ms: u64,
    pub interval_ms: u64,
    pub reverse: bool,
    pub node_prefix: Option<String>,
    pub sign_mode: String,
}

impl<F: Copy> Clone for IperfWorkflowConfig<F> {
    fn clone(&self) -> (r: Self)
        ensures
            r == *self,
    {
        IperfWorkflowConfig {
            target_name: self.target_name.clone(),
            duration_secs: self.duration_secs,
            initial_window: self.initial_window,
            cc: self.cc.clone(),
            min_window: self.min_window,
            max_window: self.max_window,
            ai: self.ai,
            md: self.md,
            cubic_c: self.cubic_c,
            lifetime_ms: self.lifetime_ms,
            interval_ms: self.interval_ms,
            reverse: self.reverse,
            node_prefix: self.node_prefix.clone(),
            sign_mode: self.sign_mode.clone(),
        }
    }
}

impl<F> IperfWorkflowConfig<F> {
    pub fn quick(target_name: &str) -> (r: Self)
        ensures
            r.target_name@ == target_name@,
            r.duration_secs == 1,
            r.initial_window == 4,
            r.cc@ == "aimd"@,
            r.min_window is None,
            r.max_window is None,
            r.ai is None,
            r.md is None,
            r.cubic_c is None,
            r.lifetime_ms == 800,
            r.interval_ms == 500,
            !r.reverse,
            r.node_prefix is None,
            r.sign_mode@ == "digest_sha256"@,
    {
        IperfWorkflowConfig {
            target_name: target_name.to_string(),
            duration_secs: 1,
            initial_window: 4,
            cc: "aimd".to_string(),
            min_window: None,
            max_window: None,
            ai: None,
            md: None,
            cubic_c: None,
            lifetime_ms: 800,
            interval_ms: 500,
            reverse: false,
            node_prefix: None,
            sign_mode: "digest_sha256".to_string(),
        }
    }
}

#[derive(Debug, PartialEq, Eq)]
pub struct PeekWorkflowConfig {
    pub target_name: String,
    pub lifetime_ms: u64,
    pub pipeline: Option<usize>,
    pub save_to: Option<String>,
    pub hex: bool,
    pub meta_only: bool,
    pub can_be_prefix: bool,
}

impl Clone for PeekWorkflowConfig {
    fn clone(&self) -> (r: Self)
        ensures
            r == *self,
    {
        PeekWorkflowConfig {
            target_name: self.target_name.clone(),
            lifetime_ms: self.lifetime_ms,
            pipeline: self.pipeline,
            save_to: self.save_to.clone(),
            hex: self.hex,
            meta_only: self.meta_only,
            can_be_prefix: self.can_be_prefix,
        }
    }
}

impl PeekWorkflowConfig {
    pub fn quick(target_name: &str) -> (r: Self)
        ensures
            r.target_name@ == target_name@,
            r.lifetime_ms == 800,
            r.pipeline is None,
            r.save_to is None,
            !r.hex,
            !r.meta_only,
            !r.can_be_prefix,
    {
        PeekWorkflowConfig {
            target_name: target_name.to_string(),
            lifetime_ms: 800,
            pipeline: None,
            save_to: None,
            hex: false,
            meta_only: false,
            can_be_prefix: false,
        }
    }
}

#[derive(Debug, PartialEq, Eq)]
pub struct PutWorkflowConfig {
    pub target_name: String,
    pub payload: Vec<u8>,
    pub chunk_size: usize,
    pub freshness_ms: u64,
    pub timeout_secs: u64,
    pub sign: bool,
    pub hmac: bool,
}

impl Clone for PutWorkflowConfig {
    fn clone(&self) -> (r: Self)
        ensures
            r.target_name == self.target_name,
            r.payload@ == self.payload@,
            r.chunk_size == self.chunk_size,
            r.freshness_ms == self.freshness_ms,
            r.timeout_secs == self.timeout_secs,
            r.sign == self.sign,
            r.hmac == self.hmac,
    {
        PutWorkflowConfig {
            target_name: self.target_name.clone(),
            payload: self.payload.clone(),
            chunk_size: self.chunk_size,
            freshness_ms: self.freshness_ms,
            timeout_secs: self.timeout_secs,
            sign: self.sign,
            hmac: self.hmac,
        }
    }
}

impl PutWorkflowConfig {
    pub fn quick(target_name: &str) -> (r: Self)
        ensures
            r.target_name@ == target_name@,
            r.payload@ == "dashboard-next put payload\n"@.map_values(|c: char| c as u8),
            r.chunk_size == 0,
            r.freshness_ms == 1000,
            r.timeout_secs == 1,
            !r.sign,
            !r.hmac,
    {
        PutWorkflowConfig {
            target_name: target_name.to_string(),
            payload: default_payload(),
            chunk_size: 0,
            freshness_ms: 1000,
            timeout_secs: 1,
            sign: false,
            hmac: false,
        }
    }

    /// The packet size to connect with: that of the payload, at least a kilobyte.
    pub fn mtu(&self) -> (r: usize)
        ensures
            r == (if self.payload@.len() < 1024 {
                1024
            } else {
                self.payload@.len()
            }),
    {
        if self.payload.len() < 1024 {
            1024
        } else {
            self.payload.len()
        }
    }
}

fn default_payload() -> (r: Vec<u8>)
    ensures
        r@ == "dashboard-next put payload\n"@.map_values(|c: char| c as u8),
{
    let words = "dashboard-next put payload\n";
    let x = text::chars_of(words);
    proof {
        reveal_strlit("dashboard-next put payload\n");
    }
    let mut out: Vec<u8> = Vec::new();
    let mut i: usize = 0;
    while i < x.len()
        invariant
            i <= x@.len(),
            x@ == words@,
            out@.len() == i,
            forall|k: int| 0 <= k < i ==> #[trigger] out@[k] == words@[k] as u8,
        decreases x@.len() - i,
    {
        out.push(x[i] as u8);
        i = i + 1;
    }
    assert(out@ =~= words@.map_values(|c: char| c as u8));
    out
}

// ---------------------------------------------------------------------------
// Runs
// ---------------------------------------------------------------------------

impl ToolRun {
    pub fn new(kind: ToolKind, target_name: &str) -> (r: Self)
        ensures
            r@ == RunText::fresh(kind, target_name@),
    {
        let r = ToolRun {
            kind,
            target_name: target_name.to_string(),
            status: ToolStatus::Pending,
            samples: Vec::new(),
            result: None,
            trace_refs: Vec::new(),
        };
        assert(r@ =~= RunText::fresh(kind, target_name@));
        r
    }

    pub fn start(self) -> (r: Self)
        ensures
            r@ == self@.started(),
    {
        let mut run = self;
        run.status = ToolStatus::Running;
        run
    }

    pub fn push_sample(self, label: &str, value: &str) -> (r: Self)
        ensures
            r@ == self@.with_sample(label@, value@),
    {
        let mut run = self;
        run.add_sample(label, value);
        run
    }

    pub fn add_sample(&mut self, label: &str, value: &str)
        ensures
            final(self)@ == old(self)@.with_sample(label@, value@),
    {
        let ghost before = self@;
        let ghost samples = self.samples@;
        self.status = ToolStatus::Streaming;
        let added = ToolSample { label: label.to_string(), value: value.to_string() };
        let ghost shown = added@;
        self.samples.push(added);
        assert(sample_texts(self.samples@) =~= sample_texts(samples).push(shown));
        assert(self@ =~= before.with_sample(label@, value@));
    }

    pub fn complete(self, result: &str) -> (r: Self)
        ensures
            r@ == self@.completed(result@),
    {
        let mut run = self;
        run.status = ToolStatus::Complete;
        run.result = Some(result.to_string());
        run
    }

    pub fn fail(self, message: &str) -> (r: Self)
        ensures
            r@ == self@.failed(message@),
    {
        let mut run = self;
        run.status = ToolStatus::Failed;
        run.result = Some(message.to_string());
        run
    }

    pub fn cancel(self) -> (r: Self)
        ensures
            r@ == self@.cancelled(),
    {
        let mut run = self;
        run.status = ToolStatus::Cancelled;
        run.result = Some("cancelled by operator".to_string());
        run
    }

    pub fn add_trace_ref(self, trace_ref: &str) -> (r: Self)
        ensures
            r@ == self@.with_trace_ref(trace_ref@),
    {
        let mut run = self;
        let ghost refs = run.trace_refs@;
        let added = trace_ref.to_string();
        run.trace_refs.push(added);
        assert(text::string_texts(run.trace_refs@) =~= text::string_texts(refs).push(trace_ref@));
        assert(run@ =~= self@.with_trace_ref(trace_ref@));
        run
    }

    pub fn export_text(&self) -> (r: String)
        ensures
            r@ == self@.exported(),
    {
        let mut out = self.kind.label().to_string().concat(" ").concat(
            self.target_name.as_str(),
        ).concat("\nstatus: ").concat(self.status.label()).concat("\n");
        let ghost head = out@;
        match &self.result {
            Some(result) => {
                let line = "result: ".to_string().concat(result.as_str()).concat("\n");
                out.append(line.as_str());
            },
            None => {
                assert(head + Seq::<char>::empty() =~= head);
            },
        }
        let ghost start = out@;
        let ghost all = sample_texts(self.samples@);
        let mut i: usize = 0;
        assert(all.take(0) =~= seq![]);
        assert(start + exported_samples(all.take(0)) =~= start);
        while i < self.samples.len()
            invariant
                i <= self.samples@.len(),
                all == sample_texts(self.samples@),
                out@ == start + exported_samples(all.take(i as int)),
            decreases self.samples@.len() - i,
        {
            let ghost before = exported_samples(all.take(i as int));
            let one = &self.samples[i];
            out.append(one.label.as_str());
            out.append(": ");
            out.append(one.value.as_str());
            out.append("\n");
            proof {
                assert(all.take(i + 1).drop_last() =~= all.take(i as int));
                assert(all.take(i + 1).last() == one@);
                assert(out@ =~= start + (before + one.label@ + ": "@ + one.value@ + "\n"@));
            }
            i = i + 1;
        }
        assert(all.take(i as int) =~= all);
        out
    }
}

/// Whatever happened before, a run ends the way it was ended last, and keeps
/// its samples, its target, and its trace references.
pub proof fn ending_keeps_the_samples(run: RunText, words: Seq<char>)
    ensures
        run.completed(words).status is Complete,
        run.failed(words).status is Failed,
        run.failed(words).result == Some(words),
        run.cancelled().status is Cancelled,
        run.completed(words).samples == run.samples,
        run.failed(words).samples == run.samples,
        run.cancelled().samples == run.samples,
        run.completed(words).target_name == run.target_name,
        run.cancelled().trace_refs == run.trace_refs,
{
}

/// Samples added one by one are the samples added together.
pub proof fn samples_are_appended(run: RunText, more: Seq<SampleText>)
    ensures
        run.with_samples(more).samples == run.samples + more,
        run.with_samples(more).target_name == run.target_name,
        run.with_samples(more).kind == run.kind,
        run.with_samples(more).result == run.result,
        run.with_samples(more).trace_refs == run.trace_refs,
    decreases more.len(),
{
    if more.len() > 0 {
        samples_are_appended(run, more.drop_last());
        assert(run.samples + more =~= (run.samples + more.drop_last()).push(more.last()));
    } else {
        assert(run.samples + more =~= run.samples);
    }
}

// ---------------------------------------------------------------------------
// Lookups and diagnostics
// ---------------------------------------------------------------------------

/// At most the first four of a list.
pub open spec fn first_four<A>(items: Seq<A>) -> Seq<A> {
    if items.len() > 4 {
        items.take(4)
    } else {
        items
    }
}

/// The sample that shows a trace.
pub open spec fn trace_sample(trace: traces::TraceModel) -> SampleText {
    sample(trace.root_name@, trace.trace_id@)
}

/// The run of a trace lookup with these matches.
pub open spec fn lookup_run(query: Seq<char>, matches: Seq<traces::TraceModel>) -> RunText {
    let run = RunText::fresh(ToolKind::TraceLookup, query).started().with_sample(
        "matches"@,
        number::decimal_text(matches.len()),
    ).with_samples(
        first_four(matches).map_values(|trace: traces::TraceModel| trace_sample(trace)),
    );
    if matches.len() > 0 {
        run.with_trace_ref(matches[0].trace_id@).completed(
            number::decimal_text(matches.len()) + " trace(s) matched"@,
        )
    } else {
        run.failed("no matching trace"@)
    }
}

pub fn run_trace_lookup(summary: &ObserveSummary, query: &str) -> (r: ToolRun)
    ensures
        r@ == lookup_run(
            query@,
            traces::models(summary.recent@).filter(
                |trace: traces::TraceModel| traces::trace_answers(trace, query@),
            ),
        ),
{
    let matches = filter_traces(summary.recent.as_slice(), query);
    let ghost all = traces::models(matches@);
    let ghost show = |trace: traces::TraceModel| trace_sample(trace);
    let ghost shown = first_four(all).map_values(show);
    let mut run = ToolRun::new(ToolKind::TraceLookup, query).start();
    run.add_sample("matches", decimal_size(matches.len()).as_str());
    let ghost base = run@;
    let mut i: usize = 0;
    assert(shown.take(0) =~= seq![]);
    while i < matches.len() && i < 4
        invariant
            i <= matches@.len(),
            i <= 4,
            all == traces::models(matches@),
            show == (|trace: traces::TraceModel| trace_sample(trace)),
            shown == first_four(all).map_values(show),
            run@ == base.with_samples(shown.take(i as int)),
        decreases matches@.len() - i,
    {
        proof {
            assert(shown.take(i + 1).drop_last() =~= shown.take(i as int));
            assert(shown.take(i + 1).last() == trace_sample(matches@[i as int]@));
        }
        run.add_sample(matches[i].root_name.as_str(), matches[i].trace_id.as_str());
        i = i + 1;
    }
    assert(shown.take(i as int) =~= shown);
    if matches.len() > 0 {
        let result = decimal_size(matches.len()).concat(" trace(s) matched");
        run.add_trace_ref(matches[0].trace_id.as_str()).complete(result.as_str())
    } else {
        run.fail("no matching trace")
    }
}

/// The sample that shows a route.
pub open spec fn route_sample(route: engine::RouteRow) -> SampleText {
    sample(
        route.prefix@,
        "face "@ + number::decimal_text(route.face_id as nat) + " cost "@ + number::decimal_text(
            route.cost as nat,
        ) + " "@ + route.flags@,
    )
}

/// The run of a route diagnostic with these candidates.
pub open spec fn route_run(prefix: Seq<char>, routes: Seq<engine::RouteRow>) -> RunText {
    let run = RunText::fresh(ToolKind::RouteDiagnostic, prefix).started().with_sample(
        "candidate routes"@,
        number::decimal_text(routes.len()),
    ).with_samples(first_four(routes).map_values(|route: engine::RouteRow| route_sample(route)));
    if routes.len() > 0 {
        run.completed(
            "best visible match "@ + routes[0].prefix@ + " via face "@ + number::decimal_text(
                routes[0].face_id as nat,
            ),
        )
    } else {
        run.failed("no visible route matched"@)
    }
}

pub fn run_route_diagnostic(engine: &EngineSummary, target_prefix: &str) -> (r: ToolRun)
    ensures
        r@ == route_run(
            target_prefix@,
            engine.routes@.filter(
                |route: engine::RouteRow|
                    engine::route_answers(route, engine::search_text(target_prefix@)),
            ),
        ),
{
    let routes = engine.search_routes(target_prefix);
    let ghost show = |route: engine::RouteRow| route_sample(route);
    let ghost shown = first_four(routes@).map_values(show);
    let mut run = ToolRun::new(ToolKind::RouteDiagnostic, target_prefix).start();
    run.add_sample("candidate routes", decimal_size(routes.len()).as_str());
    let ghost base = run@;
    let mut i: usize = 0;
    assert(shown.take(0) =~= seq![]);
    while i < routes.len() && i < 4
        invariant
            i <= routes@.len(),
            i <= 4,
            show == (|route: engine::RouteRow| route_sample(route)),
            shown == first_four(routes@).map_values(show),
            run@ == base.with_samples(shown.take(i as int)),
        decreases routes@.len() - i,
    {
        let route = &routes[i];
        proof {
            assert(shown.take(i + 1).drop_last() =~= shown.take(i as int));
            assert(shown.take(i + 1).last() == route_sample(*route));
        }
        let value = "face ".to_string().concat(decimal(route.face_id).as_str()).concat(
            " cost ",
        ).concat(decimal(route.cost).as_str()).concat(" ").concat(route.flags.as_str());
        run.add_sample(route.prefix.as_str(), value.as_str());
        i = i + 1;
    }
    assert(shown.take(i as int) =~= shown);
    if routes.len() > 0 {
        let result = "best visible match ".to_string().concat(routes[0].prefix.as_str()).concat(
            " via face ",
        ).concat(decimal(routes[0].face_id).as_str());
        run.complete(result.as_str())
    } else {
        run.fail("no visible route matched")
    }
}

/// The sample that shows a face.
pub open spec fn face_sample(face: engine::FaceRow) -> SampleText {
    sample(
        "face "@ + number::decimal_text(face.id as nat),
        face.state@ + " "@ + face.scope@ + " rx/tx "@ + (engine::count_text(face.rx_packets)
            + " / "@ + engine::count_text(face.tx_packets)),
    )
}

/// The run of a face diagnostic with these candidates.
pub open spec fn face_run(query: Seq<char>, faces: Seq<engine::FaceRow>) -> RunText {
    let run = RunText::fresh(ToolKind::FaceDiagnostic, query).started().with_sample(
        "candidate faces"@,
        number::decimal_text(faces.len()),
    ).with_samples(first_four(faces).map_values(|face: engine::FaceRow| face_sample(face)));
    if faces.len() > 0 {
        run.completed(
            "face "@ + number::decimal_text(faces[0].id as nat) + " "@ + faces[0].uri@ + " "@
                + faces[0].persistency@,
        )
    } else {
        run.failed("no visible face matched"@)
    }
}

pub fn run_face_diagnostic(engine: &EngineSummary, query: &str) -> (r: ToolRun)
    ensures
        r@ == face_run(
            query@,
            engine.faces@.filter(
                |face: engine::FaceRow|
                    engine::face_answers(face, engine::search_text(query@)),
            ),
        ),
{
    let faces = engine.filter_faces(query);
    let ghost show = |face: engine::FaceRow| face_sample(face);
    let ghost shown = first_four(faces@).map_values(show);
    let mut run = ToolRun::new(ToolKind::FaceDiagnostic, query).start();
    run.add_sample("candidate faces", decimal_size(faces.len()).as_str());
    let ghost base = run@;
    let mut i: usize = 0;
    assert(shown.take(0) =~= seq![]);
    while i < faces.len() && i < 4
        invariant
            i <= faces@.len(),
            i <= 4,
            show == (|face: engine::FaceRow| face_sample(face)),
            shown == first_four(faces@).map_values(show),
            run@ == base.with_samples(shown.take(i as int)),
        decreases faces@.len() - i,
    {
        let face = &faces[i];
        proof {
            assert(shown.take(i + 1).drop_last() =~= shown.take(i as int));
            assert(shown.take(i + 1).last() == face_sample(*face));
        }
        let label = "face ".to_string().concat(decimal(face.id).as_str());
        let value = face.state.clone().concat(" ").concat(face.scope.as_str()).concat(
            " rx/tx ",
        ).concat(face.traffic_label().as_str());
        run.add_sample(label.as_str(), value.as_str());
        i = i + 1;
    }
    assert(shown.take(i as int) =~= shown);
    if faces.len() > 0 {
        let result = "face ".to_string().concat(decimal(faces[0].id).as_str()).concat(" ").concat(
            faces[0].uri.as_str(),
        ).concat(" ").concat(faces[0].persistency.as_str());
        run.complete(result.as_str())
    } else {
        run.fail("no visible face matched")
    }
}

/// The control of a tool server on a target.
pub open spec fn server_control(
    kind: ToolKind,
    target_name: Seq<char>,
    profile: ForwarderProfile,
) -> RunText {
    RunText {
        result: Some(
            if profile.capabilities.tools.available() {
                "server control available after session manager wiring"@
            } else {
                "server control unsupported by target"@
            },
        ),
        ..RunText::fresh(kind, target_name).started().with_sample(
            "platform"@,
            profile.attach_mode.label_text(),
        )
    }
}

fn tool_server_control(kind: ToolKind, target_name: &str, profile: &ForwarderProfile) -> (r: ToolRun)
    ensures
        r@ == server_control(kind, target_name@, *profile),
{
    let mut control = ToolRun::new(kind, target_name).start();
    control.add_sample("platform", profile.attach_mode.label());
    control.result = Some(
        if profile.capabilities.tools.is_available() {
            "server control available after session manager wiring".to_string()
        } else {
            "server control unsupported by target".to_string()
        },
    );
    control
}

pub fn tool_server_controls(profile: &ForwarderProfile) -> (r: Vec<ToolRun>)
    ensures
        run_texts(r@) == seq![
            server_control(ToolKind::Ping, "server /ping"@, *profile),
            server_control(ToolKind::Iperf, "server /iperf"@, *profile),
            server_control(ToolKind::Put, "serve object"@, *profile),
        ],
{
    let r = vec![
        tool_server_control(ToolKind::Ping, "server /ping", profile),
        tool_server_control(ToolKind::Iperf, "server /iperf", profile),
        tool_server_control(ToolKind::Put, "serve object", profile),
    ];
    assert(run_texts(r@) =~= seq![
        server_control(ToolKind::Ping, "server /ping"@, *profile),
        server_control(ToolKind::Iperf, "server /iperf"@, *profile),
        server_control(ToolKind::Put, "serve object"@, *profile),
    ]);
    r
}

/// The stand-in runs.
pub open spec fn stand_in_runs() -> Seq<RunText> {
    seq![
        RunText::fresh(ToolKind::Ping, "/demo/router"@).started().with_sample(
            "rtt p50"@,
            "2.1 ms"@,
        ).with_sample("loss"@, "0%"@).completed("satisfied 20/20 Interests"@).with_trace_ref(
            "/demo/router"@,
        ),
        RunText::fresh(ToolKind::Iperf, "/demo/throughput"@).started().with_sample(
            "goodput"@,
            "184 Mbps"@,
        ).with_sample("jitter"@, "0.6 ms"@),
        RunText::fresh(ToolKind::TraceLookup, "/demo/video/keyframe"@).started().with_sample(
            "trace"@,
            "aaaaaaaa..."@,
        ).completed("linked to Observe"@),
    ]
}

pub fn mock_runs() -> (r: Vec<ToolRun>)
    ensures
        run_texts(r@) == stand_in_runs(),
{
    let r = vec![
        ToolRun::new(ToolKind::Ping, "/demo/router").start().push_sample(
            "rtt p50",
            "2.1 ms",
        ).push_sample("loss", "0%").complete("satisfied 20/20 Interests").add_trace_ref(
            "/demo/router",
        ),
        ToolRun::new(ToolKind::Iperf, "/demo/throughput").start().push_sample(
            "goodput",
            "184 Mbps",
        ).push_sample("jitter", "0.6 ms"),
        ToolRun::new(ToolKind::TraceLookup, "/demo/video/keyframe").start().push_sample(
            "trace",
            "aaaaaaaa...",
        ).complete("linked to Observe"),
    ];
    assert(run_texts(r@) =~= stand_in_runs());
    r
}

// ---------------------------------------------------------------------------
// Workflows
// ---------------------------------------------------------------------------

/// A round trip time: milliseconds with two places from a millisecond on.
pub open spec fn rtt_text(rtt_us: u64) -> Seq<char> {
    if rtt_us >= 1000 {
        number::two_place_text(rtt_us as nat, 1000) + " ms"@
    } else {
        number::decimal_text(rtt_us as nat) + " us"@
    }
}

/// A size in bytes, with two places from a kilobyte on.
pub open spec fn bytes_text(bytes: u64) -> Seq<char> {
    if bytes >= 1_073_741_824 {
        number::two_place_text(bytes as nat, 1_073_741_824) + " GB"@
    } else if bytes >= 1_048_576 {
        number::two_place_text(bytes as nat, 1_048_576) + " MB"@
    } else if bytes >= 1024 {
        number::two_place_text(bytes as nat, 1024) + " KB"@
    } else {
        number::decimal_text(bytes as nat) + " B"@
    }
}

pub fn format_rtt(rtt_us: u64) -> (r: String)
    ensures
        r@ == rtt_text(rtt_us),
{
    if rtt_us >= 1000 {
        two_places(rtt_us, 1000).concat(" ms")
    } else {
        decimal(rtt_us).concat(" us")
    }
}

pub fn format_bytes(bytes: u64) -> (r: String)
    ensures
        r@ == bytes_text(bytes),
{
    if bytes >= 1_073_741_824 {
        two_places(bytes, 1_073_741_824).concat(" GB")
    } else if bytes >= 1_048_576 {
        two_places(bytes, 1_048_576).concat(" MB")
    } else if bytes >= 1024 {
        two_places(bytes, 1024).concat(" KB")
    } else {
        decimal(bytes).concat(" B")
    }
}

/// Why a tool cannot reach a target.
pub open spec fn transport_blocker(profile: ForwarderProfile) -> Option<Seq<char>> {
    if !(profile.attach_mode is LocalDesktop) {
        Some("workflow needs a desktop Unix-socket attach until browser-safe tool transport lands"@)
    } else if !profile.capabilities.tools.available() {
        Some("selected forwarder does not expose compatible tool transport"@)
    } else {
        None
    }
}

/// The socket that a tool connects to, or why there is none.
pub fn has_tool_transport(profile: &ForwarderProfile) -> (r: Result<String, String>)
    ensures
        r is Ok <==> transport_blocker(*profile) is None,
        r matches Ok(socket) ==> socket@ == model::socket_text(profile.endpoint@),
        r matches Err(message) ==> transport_blocker(*profile) == Some(message@),
{
    if profile.attach_mode != AttachMode::LocalDesktop {
        return Err(
            "workflow needs a desktop Unix-socket attach until browser-safe tool transport lands".to_string(),
        );
    }
    if !profile.capabilities.tools.is_available() {
        return Err("selected forwarder does not expose compatible tool transport".to_string());
    }
    Ok(socket_path(profile.endpoint.as_str()))
}

/// A workflow as it begins: running, and pointing at what it traces.
pub open spec fn begun(kind: ToolKind, target_name: Seq<char>) -> RunText {
    let run = RunText::fresh(kind, target_name).started();
    if kind is Iperf {
        run
    } else {
        run.with_trace_ref(target_name)
    }
}

/// What beginning a workflow comes down to.
pub enum ToolStart {
    /// The run has failed before it could reach the forwarder.
    Done(ToolRun),
    /// The run goes on over this socket.
    Go { run: ToolRun, socket: String },
}

/// Begins a workflow.
pub fn begin_tool_run(kind: ToolKind, target_name: &str, profile: &ForwarderProfile) -> (r:
    ToolStart)
    ensures
        match r {
            ToolStart::Done(run) => transport_blocker(*profile) matches Some(blocker) && run@
                == begun(kind, target_name@).failed(blocker),
            ToolStart::Go { run, socket } => transport_blocker(*profile) is None && run@ == begun(
                kind,
                target_name@,
            ) && socket@ == model::socket_text(profile.endpoint@),
        },
{
    let run = ToolRun::new(kind, target_name).start();
    let run = if kind == ToolKind::Iperf {
        run
    } else {
        run.add_trace_ref(target_name)
    };
    match has_tool_transport(profile) {
        Ok(socket) => ToolStart::Go { run, socket },
        Err(message) => ToolStart::Done(run.fail(message.as_str())),
    }
}

/// The run of a workflow where no tool transport exists at all.
pub fn browser_tool_run(kind: ToolKind, target_name: &str) -> (r: ToolRun)
    ensures
        r@ == RunText::fresh(kind, target_name@).started().failed(
            "browser "@ + kind.label_text() + " needs the browser-safe tool transport"@,
        ),
{
    let message = "browser ".to_string().concat(kind.label()).concat(
        " needs the browser-safe tool transport",
    );
    ToolRun::new(kind, target_name).start().fail(message.as_str())
}

/// What a tool measured. Rates and shares arrive as they are shown.
pub enum ToolData {
    PingResult { seq: u64, rtt_us: u64 },
    PingSummary {
        sent: u64,
        received: u64,
        nacks: u64,
        timeouts: u64,
        loss: String,
        rtt_avg_us: u64,
        rtt_p50_us: u64,
        rtt_p99_us: u64,
    },
    IperfInterval { bytes: u64, goodput: String, rtt_avg_us: u64 },
    IperfSummary {
        duration: String,
        transferred_bytes: u64,
        goodput: String,
        sent: u64,
        received: u64,
        loss: String,
        rtt_avg_us: u64,
        rtt_p99_us: u64,
    },
    PeekResult { name: String, bytes_received: u64, saved_to: Option<String> },
    FetchProgress { received: u64, total: u64 },
    /// Anything that no run shows.
    Other,
}

/// Something that a tool reports: a line of text, perhaps an error, perhaps
/// with what was measured.
pub struct ToolEvent {
    pub error: bool,
    pub text: String,
    pub data: Option<ToolData>,
}

impl ToolEvent {
    /// A run after an event whose data it does not show: errors fail it.
    pub open spec fn unless_error(self, run: RunText) -> RunText {
        if self.error {
            run.failed(self.text@)
        } else {
            run
        }
    }
}

fn plain_step(run: ToolRun, error: bool, words: &str) -> (r: ToolRun)
    ensures
        r@ == (if error {
            run@.failed(words@)
        } else {
            run@
        }),
{
    if error {
        run.fail(words)
    } else {
        run
    }
}

/// Two numbers with a slash between them.
pub open spec fn pair_text(a: u64, b: u64) -> Seq<char> {
    number::decimal_text(a as nat) + "/"@ + number::decimal_text(b as nat)
}

fn show_pair(a: u64, b: u64) -> (r: String)
    ensures
        r@ == pair_text(a, b),
{
    decimal(a).concat("/").concat(decimal(b).as_str())
}

/// Two round trip times with a slash between them.
pub open spec fn rtt_pair_text(a: u64, b: u64) -> Seq<char> {
    rtt_text(a) + "/"@ + rtt_text(b)
}

fn show_rtt_pair(a: u64, b: u64) -> (r: String)
    ensures
        r@ == rtt_pair_text(a, b),
{
    format_rtt(a).concat("/").concat(format_rtt(b).as_str())
}

/// A ping run after an event: results are samples, the summary completes it.
pub open spec fn ping_after(run: RunText, event: ToolEvent) -> RunText {
    match event.data {
        Some(ToolData::PingResult { seq, rtt_us }) => run.with_sample(
            "seq "@ + number::decimal_text(seq as nat),
            rtt_text(rtt_us),
        ),
        Some(ToolData::PingSummary {
            sent,
            received,
            nacks,
            timeouts,
            loss,
            rtt_avg_us,
            rtt_p50_us,
            rtt_p99_us,
        }) => run.with_sample("sent/recv"@, pair_text(sent, received)).with_sample(
            "loss"@,
            loss@,
        ).with_sample("rtt avg"@, rtt_text(rtt_avg_us)).with_sample(
            "rtt p50/p99"@,
            rtt_pair_text(rtt_p50_us, rtt_p99_us),
        ).completed(
            pair_text(received, sent) + " satisfied, "@ + number::decimal_text(nacks as nat)
                + " nacked, "@ + number::decimal_text(timeouts as nat) + " timeouts"@,
        ),
        _ => event.unless_error(run),
    }
}

/// A throughput run after an event.
pub open spec fn iperf_after(run: RunText, event: ToolEvent) -> RunText {
    match event.data {
        Some(ToolData::IperfInterval { bytes, goodput, rtt_avg_us }) => run.with_sample(
            "interval bytes"@,
            bytes_text(bytes),
        ).with_sample("goodput"@, goodput@).with_sample("rtt avg"@, rtt_text(rtt_avg_us)),
        Some(ToolData::IperfSummary {
            duration,
            transferred_bytes,
            goodput,
            sent,
            received,
            loss,
            rtt_avg_us,
            rtt_p99_us,
        }) => run.with_sample("duration"@, duration@).with_sample(
            "transferred"@,
            bytes_text(transferred_bytes),
        ).with_sample("goodput"@, goodput@).with_sample(
            "sent/recv"@,
            pair_text(sent, received),
        ).with_sample("loss"@, loss@).with_sample(
            "rtt avg/p99"@,
            rtt_pair_text(rtt_avg_us, rtt_p99_us),
        ).completed(goodput@),
        _ => event.unless_error(run),
    }
}

/// A peek run after an event.
pub open spec fn peek_after(run: RunText, event: ToolEvent) -> RunText {
    match event.data {
        Some(ToolData::PeekResult { name, bytes_received, saved_to }) => {
            let named = run.with_sample("Data name"@, name@).with_sample(
                "bytes"@,
                bytes_text(bytes_received),
            );
            let saved = match saved_to {
                Some(path) => named.with_sample("saved"@, path@),
                None => named,
            };
            saved.completed("received "@ + bytes_text(bytes_received))
        },
        Some(ToolData::FetchProgress { received, total }) => run.with_sample(
            "segments"@,
            pair_text(received, total),
        ),
        _ => event.unless_error(run),
    }
}

/// A put run after an event: an error fails it, any other line of text that is
/// not blank is a sample.
pub open spec fn put_after(run: RunText, event: ToolEvent) -> RunText {
    if event.error {
        run.failed(event.text@)
    } else if text::trimmed(event.text@).len() > 0 {
        run.with_sample("event"@, event.text@)
    } else {
        run
    }
}

/// A run of a workflow after an event.
pub open spec fn run_after(run: RunText, event: ToolEvent) -> RunText {
    match run.kind {
        ToolKind::Ping => ping_after(run, event),
        ToolKind::Iperf => iperf_after(run, event),
        ToolKind::Peek => peek_after(run, event),
        ToolKind::Put => put_after(run, event),
        _ => run,
    }
}

fn ping_step(run: ToolRun, event: ToolEvent) -> (r: ToolRun)
    ensures
        r@ == ping_after(run@, event),
{
    let mut run = run;
    match event.data {
        Some(ToolData::PingResult { seq, rtt_us }) => {
            let label = "seq ".to_string().concat(decimal(seq).as_str());
            run.add_sample(label.as_str(), format_rtt(rtt_us).as_str());
            run
        },
        Some(ToolData::PingSummary {
            sent,
            received,
            nacks,
            timeouts,
            loss,
            rtt_avg_us,
            rtt_p50_us,
            rtt_p99_us,
        }) => {
            run.add_sample("sent/recv", show_pair(sent, received).as_str());
            run.add_sample("loss", loss.as_str());
            run.add_sample("rtt avg", format_rtt(rtt_avg_us).as_str());
            run.add_sample("rtt p50/p99", show_rtt_pair(rtt_p50_us, rtt_p99_us).as_str());
            let result = show_pair(received, sent).concat(" satisfied, ").concat(
                decimal(nacks).as_str(),
            ).concat(" nacked, ").concat(decimal(timeouts).as_str()).concat(" timeouts");
            run.complete(result.as_str())
        },
        _ => plain_step(run, event.error, event.text.as_str()),
    }
}

fn iperf_step(run: ToolRun, event: ToolEvent) -> (r: ToolRun)
    ensures
        r@ == iperf_after(run@, event),
{
    let mut run = run;
    match event.data {
        Some(ToolData::IperfInterval { bytes, goodput, rtt_avg_us }) => {
            run.add_sample("interval bytes", format_bytes(bytes).as_str());
            run.add_sample("goodput", goodput.as_str());
            run.add_sample("rtt avg", format_rtt(rtt_avg_us).as_str());
            run
        },
        Some(ToolData::IperfSummary {
            duration,
            transferred_bytes,
            goodput,
            sent,
            received,
            loss,
            rtt_avg_us,
            rtt_p99_us,
        }) => {
            run.add_sample("duration", duration.as_str());
            run.add_sample("transferred", format_bytes(transferred_bytes).as_str());
            run.add_sample("goodput", goodput.as_str());
            run.add_sample("sent/recv", show_pair(sent, received).as_str());
            run.add_sample("loss", loss.as_str());
            run.add_sample("rtt avg/p99", show_rtt_pair(rtt_avg_us, rtt_p99_us).as_str());
            run.complete(goodput.as_str())
        },
        _ => plain_step(run, event.error, event.text.as_str()),
    }
}

fn peek_step(run: ToolRun, event: ToolEvent) -> (r: ToolRun)
    ensures
        r@ == peek_after(run@, event),
{
    let mut run = run;
    match event.data {
        Some(ToolData::PeekResult { name, bytes_received, saved_to }) => {
            run.add_sample("Data name", name.as_str());
            run.add_sample("bytes", format_bytes(bytes_received).as_str());
            if let Some(path) = saved_to {
                run.add_sample("saved", path.as_str());
            }
            let result = "received ".to_string().concat(format_bytes(bytes_received).as_str());
            run.complete(result.as_str())
        },
        Some(ToolData::FetchProgress { received, total }) => {
            run.add_sample("segments", show_pair(received, total).as_str());
            run
        },
        _ => plain_step(run, event.error, event.text.as_str()),
    }
}

fn put_step(run: ToolRun, event: ToolEvent) -> (r: ToolRun)
    ensures
        r@ == put_after(run@, event),
{
    let mut run = run;
    if event.error {
        return run.fail(event.text.as_str());
    }
    if !trim(event.text.as_str()).is_empty() {
        run.add_sample("event", event.text.as_str());
    }
    run
}

/// Takes an event of a workflow into its run.
pub fn tool_step(run: ToolRun, event: ToolEvent) -> (r: ToolRun)
    ensures
        r@ == run_after(run@, event),
{
    match run.kind {
        ToolKind::Ping => ping_step(run, event),
        ToolKind::Iperf => iperf_step(run, event),
        ToolKind::Peek => peek_step(run, event),
        ToolKind::Put => put_step(run, event),
        _ => run,
    }
}

/// What became of the worker of a workflow.
pub enum WorkerOutcome {
    /// The tool ended by itself.
    Finished,
    /// The tool reported an error.
    Failed(String),
    /// The task of the tool did not end in order.
    Crashed(String),
}

/// What completes a run whose tool ended without a summary.
pub open spec fn bare_completion(kind: ToolKind) -> Seq<char> {
    match kind {
        ToolKind::Peek => "peek completed without structured result"@,
        _ => kind.label_text() + " completed without structured summary"@,
    }
}

/// A run after its worker has ended. A tool that ended by itself completes the
/// run unless a summary has done so already.
pub open spec fn run_finished(run: RunText, outcome: WorkerOutcome) -> RunText {
    match outcome {
        WorkerOutcome::Finished => if run.status is Complete {
            run
        } else {
            run.completed(bare_completion(run.kind))
        },
        WorkerOutcome::Failed(error) => run.failed(
            run.kind.label_text() + " failed: "@ + error@,
        ),
        WorkerOutcome::Crashed(error) => run.failed(
            run.kind.label_text() + " task failed: "@ + error@,
        ),
    }
}

/// Finishes a run with what became of its worker.
pub fn finish_tool_run(run: ToolRun, outcome: WorkerOutcome) -> (r: ToolRun)
    ensures
        r@ == run_finished(run@, outcome),
{
    let kind = run.kind;
    match outcome {
        WorkerOutcome::Finished => {
            if run.status == ToolStatus::Complete {
                run
            } else if kind == ToolKind::Peek {
                run.complete("peek completed without structured result")
            } else {
                let result = kind.label().to_string().concat(" completed without structured summary");
                run.complete(result.as_str())
            }
        },
        WorkerOutcome::Failed(error) => {
            let message = kind.label().to_string().concat(" failed: ").concat(error.as_str());
            run.fail(message.as_str())
        },
        WorkerOutcome::Crashed(error) => {
            let message = kind.label().to_string().concat(" task failed: ").concat(error.as_str());
            run.fail(message.as_str())
        },
    }
}

/// A put run after its producer has ended: served objects show their freshness
/// and size.
pub open spec fn put_finished(
    run: RunText,
    freshness_ms: u64,
    payload_len: u64,
    outcome: WorkerOutcome,
) -> RunText {
    match outcome {
        WorkerOutcome::Finished => run.with_sample(
            "freshness"@,
            number::decimal_text(freshness_ms as nat) + " ms"@,
        ).with_sample("payload"@, bytes_text(payload_len)).completed(
            "object served for dashboard session"@,
        ),
        WorkerOutcome::Failed(error) => run.failed("put failed: "@ + error@),
        WorkerOutcome::Crashed(error) => run.failed("put task failed: "@ + error@),
    }
}

/// Finishes a put run with what became of its producer.
pub fn finish_put_run(
    run: ToolRun,
    freshness_ms: u64,
    payload_len: u64,
    outcome: WorkerOutcome,
) -> (r: ToolRun)
    ensures
        r@ == put_finished(run@, freshness_ms, payload_len, outcome),
{
    let mut run = run;
    match outcome {
        WorkerOutcome::Finished => {
            run.add_sample("freshness", decimal(freshness_ms).concat(" ms").as_str());
            run.add_sample("payload", format_bytes(payload_len).as_str());
            run.complete("object served for dashboard session")
        },
        WorkerOutcome::Failed(error) => {
            run.fail("put failed: ".to_string().concat(error.as_str()).as_str())
        },
        WorkerOutcome::Crashed(error) => {
            run.fail("put task failed: ".to_string().concat(error.as_str()).as_str())
        },
    }
}

/// A run whose worker has ended is complete or failed, with a result.
pub proof fn finished_run_has_a_result(run: RunText, outcome: WorkerOutcome)
    requires
        run.status is Complete ==> run.result is Some,
    ensures
        run_finished(run, outcome).result is Some,
        run_finished(run, outcome).status is Complete || run_finished(
            run,
            outcome,
        ).status is Failed,
        run_finished(run, outcome).status is Complete <==> outcome is Finished,
{
}

/// An event never loses a sample that was taken before it.
pub proof fn events_keep_samples(run: RunText, event: ToolEvent)
    ensures
        run.samples.is_prefix_of(run_after(run, event).samples),
        run_after(run, event).kind == run.kind,
        run_after(run, event).target_name == run.target_name,
        run_after(run, event).trace_refs == run.trace_refs,
{
}

// ---------------------------------------------------------------------------
// Laws
// ---------------------------------------------------------------------------

/// A run begins pending and empty, for the tool and the target that were asked
/// for; starting it changes its status alone.
pub proof fn runs_begin_empty(kind: ToolKind, target_name: Seq<char>)
    ensures
        RunText::fresh(kind, target_name).kind == kind,
        RunText::fresh(kind, target_name).target_name == target_name,
        RunText::fresh(kind, target_name).status is Pending,
        RunText::fresh(kind, target_name).samples.len() == 0,
        RunText::fresh(kind, target_name).result is None,
        RunText::fresh(kind, target_name).trace_refs.len() == 0,
        RunText::fresh(kind, target_name).started().status is Running,
        begun(kind, target_name).status is Running && begun(kind, target_name).kind == kind
            && begun(kind, target_name).target_name == target_name,
        kind is Iperf ==> begun(kind, target_name).trace_refs.len() == 0,
        !(kind is Iperf) ==> begun(kind, target_name).trace_refs == seq![target_name],
{
    assert(Seq::<Seq<char>>::empty().push(target_name) =~= seq![target_name]);
}

/// Tools run over the local socket of a forwarder that has them, and nowhere
/// else.
pub proof fn tools_need_the_local_socket(profile: ForwarderProfile)
    ensures
        transport_blocker(profile) is None <==> profile.attach_mode is LocalDesktop && !(
        profile.capabilities.tools is Unsupported) && !(profile.capabilities.tools is Disabled),
{
}

/// A ping shows each reply under its number, and in the end how many of those
/// sent were answered, what was lost, and how long it took.
pub proof fn pings_show_their_replies(run: RunText, event: ToolEvent)
    requires
        run.kind is Ping,
    ensures
        event.data matches Some(ToolData::PingResult { seq, rtt_us }) ==> {
            let after = run_after(run, event);
            &&& after.status is Streaming
            &&& after.samples == run.samples.push(
                sample("seq "@ + number::decimal_text(seq as nat), rtt_text(rtt_us)),
            )
            &&& after.result == run.result
        },
        event.data matches Some(
            ToolData::PingSummary {
                sent,
                received,
                nacks,
                timeouts,
                loss,
                rtt_avg_us,
                rtt_p50_us,
                rtt_p99_us,
            },
        ) ==> {
            let after = run_after(run, event);
            let got = number::decimal_text(received as nat);
            let asked = number::decimal_text(sent as nat);
            &&& after.status is Complete
            &&& after.samples == run.samples.push(
                sample("sent/recv"@, asked + "/"@ + got),
            ).push(sample("loss"@, loss@)).push(sample("rtt avg"@, rtt_text(rtt_avg_us))).push(
                sample("rtt p50/p99"@, rtt_text(rtt_p50_us) + "/"@ + rtt_text(rtt_p99_us)),
            )
            &&& after.result == Some(
                got + "/"@ + asked + " satisfied, "@ + number::decimal_text(nacks as nat)
                    + " nacked, "@ + number::decimal_text(timeouts as nat) + " timeouts"@,
            )
        },
{
}

/// A throughput run shows what each interval carried, and in the end the total,
/// with the goodput as its result.
pub proof fn throughput_runs_show_the_goodput(run: RunText, event: ToolEvent)
    requires
        run.kind is Iperf,
    ensures
        event.data matches Some(ToolData::IperfInterval { bytes, goodput, rtt_avg_us }) ==> {
            let after = run_after(run, event);
            &&& after.status is Streaming
            &&& after.samples == run.samples.push(
                sample("interval bytes"@, bytes_text(bytes)),
            ).push(sample("goodput"@, goodput@)).push(sample("rtt avg"@, rtt_text(rtt_avg_us)))
            &&& after.result == run.result
        },
        event.data matches Some(
            ToolData::IperfSummary {
                duration,
                transferred_bytes,
                goodput,
                sent,
                received,
                loss,
                rtt_avg_us,
                rtt_p99_us,
            },
        ) ==> {
            let after = run_after(run, event);
            &&& after.status is Complete
            &&& after.result == Some(goodput@)
            &&& after.samples == run.samples.push(sample("duration"@, duration@)).push(
                sample("transferred"@, bytes_text(transferred_bytes)),
            ).push(sample("goodput"@, goodput@)).push(
                sample(
                    "sent/recv"@,
                    number::decimal_text(sent as nat) + "/"@ + number::decimal_text(
                        received as nat,
                    ),
                ),
            ).push(sample("loss"@, loss@)).push(
                sample("rtt avg/p99"@, rtt_text(rtt_avg_us) + "/"@ + rtt_text(rtt_p99_us)),
            )
        },
{
}

/// A peek shows how far the fetch is, and in the end what was received and
/// where it was saved.
pub proof fn peeks_show_what_was_received(run: RunText, event: ToolEvent)
    requires
        run.kind is Peek,
    ensures
        event.data matches Some(ToolData::FetchProgress { received, total }) ==> {
            let after = run_after(run, event);
            &&& after.status is Streaming
            &&& after.samples == run.samples.push(
                sample(
                    "segments"@,
                    number::decimal_text(received as nat) + "/"@ + number::decimal_text(
                        total as nat,
                    ),
                ),
            )
        },
        event.data matches Some(ToolData::PeekResult { name, bytes_received, saved_to }) ==> {
            let after = run_after(run, event);
            let told = run.samples.push(sample("Data name"@, name@)).push(
                sample("bytes"@, bytes_text(bytes_received)),
            );
            &&& after.status is Complete
            &&& after.result == Some("received "@ + bytes_text(bytes_received))
            &&& saved_to matches Some(path) ==> after.samples == told.push(
                sample("saved"@, path@),
            )
            &&& saved_to is None ==> after.samples == told
        },
{
}

/// An error without a result ends a run with the words of the error; any other
/// event without a result leaves it as it is. A put shows its events as they
/// come, unless they are blank.
pub proof fn errors_end_a_run(run: RunText, event: ToolEvent)
    requires
        event.data is None,
        run.kind is Ping || run.kind is Iperf || run.kind is Peek || run.kind is Put,
    ensures
        ({
            let after = run_after(run, event);
            &&& event.error ==> after.status is Failed && after.result == Some(event.text@)
                && after.samples == run.samples
            &&& !event.error && !(run.kind is Put) ==> after == run
            &&& !event.error && run.kind is Put && text::trimmed(event.text@).len() == 0
                ==> after == run
            &&& !event.error && run.kind is Put && text::trimmed(event.text@).len() > 0
                ==> after.status is Streaming && after.samples == run.samples.push(
                sample("event"@, event.text@),
            )
        }),
{
}

/// A worker that finished leaves a completed run alone and completes any other;
/// one that failed or crashed fails the run, and the error is told.
pub proof fn workers_settle_their_run(run: RunText, outcome: WorkerOutcome)
    ensures
        outcome is Finished && run.status is Complete ==> run_finished(run, outcome) == run,
        outcome is Finished && !(run.status is Complete) ==> run_finished(
            run,
            outcome,
        ).status is Complete,
        outcome matches WorkerOutcome::Failed(error) ==> run_finished(run, outcome).status is Failed
            && run_finished(run, outcome).result == Some(
            run.kind.label_text() + " failed: "@ + error@,
        ),
        outcome matches WorkerOutcome::Crashed(error) ==> run_finished(
            run,
            outcome,
        ).status is Failed && run_finished(run, outcome).result == Some(
            run.kind.label_text() + " task failed: "@ + error@,
        ),
        run_finished(run, outcome).samples == run.samples,
        run_finished(run, outcome).kind == run.kind,
        run_finished(run, outcome).target_name == run.target_name,
{
}

/// A put that was served tells how long the object is fresh and how large it is;
/// one that was not tells why.
pub proof fn puts_settle_with_the_object(
    run: RunText,
    freshness_ms: u64,
    payload_len: u64,
    outcome: WorkerOutcome,
)
    ensures
        ({
            let after = put_finished(run, freshness_ms, payload_len, outcome);
            &&& after.status is Complete <==> outcome is Finished
            &&& after.status is Failed <==> !(outcome is Finished)
            &&& outcome is Finished ==> after.samples == run.samples.push(
                sample("freshness"@, number::decimal_text(freshness_ms as nat) + " ms"@),
            ).push(sample("payload"@, bytes_text(payload_len))) && after.result == Some(
                "object served for dashboard session"@,
            )
            &&& outcome matches WorkerOutcome::Failed(error) ==> after.result == Some(
                "put failed: "@ + error@,
            ) && after.samples == run.samples
            &&& outcome matches WorkerOutcome::Crashed(error) ==> after.result == Some(
                "put task failed: "@ + error@,
            ) && after.samples == run.samples
        }),
{
}

/// A lookup tells how many traces matched and shows the first four; it refers to
/// the first one, and fails where there is none.
pub proof fn lookups_show_the_matching_traces(
    query: Seq<char>,
    matches: Seq<traces::TraceModel>,
    i: int,
)
    ensures
        ({
            let run = lookup_run(query, matches);
            &&& run.kind is TraceLookup && run.target_name == query
            &&& run.status is Complete <==> matches.len() > 0
            &&& run.status is Failed <==> matches.len() == 0
            &&& run.samples.len() == 1 + (if matches.len() > 4 {
                4
            } else {
                matches.len()
            })
            &&& run.samples[0] == sample("matches"@, number::decimal_text(matches.len()))
            &&& 0 <= i < matches.len() && i < 4 ==> run.samples[i + 1] == sample(
                matches[i].root_name@,
                matches[i].trace_id@,
            )
            &&& matches.len() > 0 ==> run.trace_refs == seq![matches[0].trace_id@]
                && run.result == Some(
                number::decimal_text(matches.len()) + " trace(s) matched"@,
            )
            &&& matches.len() == 0 ==> run.trace_refs.len() == 0 && run.result == Some(
                "no matching trace"@,
            )
        }),
{
    let begin = RunText::fresh(ToolKind::TraceLookup, query).started().with_sample(
        "matches"@,
        number::decimal_text(matches.len()),
    );
    let more = first_four(matches).map_values(|trace: traces::TraceModel| trace_sample(trace));
    samples_are_appended(begin, more);
    if matches.len() > 0 {
        assert(Seq::<Seq<char>>::empty().push(matches[0].trace_id@) =~= seq![matches[0].trace_id@]);
    }
}

/// A route diagnostic tells how many routes answered and shows the first four,
/// each with its own face and cost; the first one is the result.
pub proof fn diagnostics_show_the_matching_routes(
    prefix: Seq<char>,
    routes: Seq<engine::RouteRow>,
    i: int,
)
    ensures
        ({
            let run = route_run(prefix, routes);
            &&& run.kind is RouteDiagnostic && run.target_name == prefix
            &&& run.status is Complete <==> routes.len() > 0
            &&& run.status is Failed <==> routes.len() == 0
            &&& run.samples[0] == sample("candidate routes"@, number::decimal_text(routes.len()))
            &&& run.samples.len() == 1 + (if routes.len() > 4 {
                4
            } else {
                routes.len()
            })
            &&& 0 <= i < routes.len() && i < 4 ==> run.samples[i + 1] == sample(
                routes[i].prefix@,
                "face "@ + number::decimal_text(routes[i].face_id as nat) + " cost "@
                    + number::decimal_text(routes[i].cost as nat) + " "@ + routes[i].flags@,
            )
            &&& routes.len() > 0 ==> run.result == Some(
                "best visible match "@ + routes[0].prefix@ + " via face "@ + number::decimal_text(
                    routes[0].face_id as nat,
                ),
            )
        }),
{
    let begin = RunText::fresh(ToolKind::RouteDiagnostic, prefix).started().with_sample(
        "candidate routes"@,
        number::decimal_text(routes.len()),
    );
    let more = first_four(routes).map_values(|route: engine::RouteRow| route_sample(route));
    samples_are_appended(begin, more);
}

/// A face diagnostic tells how many faces answered and shows the first four,
/// each under its own number; the first one is the result.
pub proof fn diagnostics_show_the_matching_faces(
    query: Seq<char>,
    faces: Seq<engine::FaceRow>,
    i: int,
)
    ensures
        ({
            let run = face_run(query, faces);
            &&& run.kind is FaceDiagnostic && run.target_name == query
            &&& run.status is Complete <==> faces.len() > 0
            &&& run.status is Failed <==> faces.len() == 0
            &&& run.samples[0] == sample("candidate faces"@, number::decimal_text(faces.len()))
            &&& run.samples.len() == 1 + (if faces.len() > 4 {
                4
            } else {
                faces.len()
            })
            &&& 0 <= i < faces.len() && i < 4 ==> run.samples[i + 1] == sample(
                "face "@ + number::decimal_text(faces[i].id as nat),
                faces[i].state@ + " "@ + faces[i].scope@ + " rx/tx "@ + (engine::count_text(
                    faces[i].rx_packets,
                ) + " / "@ + engine::count_text(faces[i].tx_packets)),
            )
            &&& faces.len() > 0 ==> run.result == Some(
                "face "@ + number::decimal_text(faces[0].id as nat) + " "@ + faces[0].uri@ + " "@
                    + faces[0].persistency@,
            )
        }),
{
    let begin = RunText::fresh(ToolKind::FaceDiagnostic, query).started().with_sample(
        "candidate faces"@,
        number::decimal_text(faces.len()),
    );
    let more = first_four(faces).map_values(|face: engine::FaceRow| face_sample(face));
    samples_are_appended(begin, more);
}

/// Small times and sizes are told as they are, in microseconds and bytes.
pub proof fn small_measures_are_told_as_they_are(n: u64)
    ensures
        n < 1000 ==> rtt_text(n) == number::decimal_text(n as nat) + " us"@,
        n < 1024 ==> bytes_text(n) == number::decimal_text(n as nat) + " B"@,
        1024 <= n < 1_048_576 ==> bytes_text(n) == number::two_place_text(n as nat, 1024)
            + " KB"@,
        1_048_576 <= n < 1_073_741_824 ==> bytes_text(n) == number::two_place_text(
            n as nat,
            1_048_576,
        ) + " MB"@,
        n >= 1_073_741_824 ==> bytes_text(n) == number::two_place_text(n as nat, 1_073_741_824)
            + " GB"@,
        n >= 1000 ==> rtt_text(n) == number::two_place_text(n as nat, 1000) + " ms"@,
{
}

/// An export names the tool, the target and the status, then the result where
/// there is one, and the samples behind it line by line.
pub proof fn exports_tell_the_run(run: RunText)
    ensures
        ({
            let head = run.kind.label_text() + " "@ + run.target_name + "\nstatus: "@
                + run.status.label_text() + "\n"@;
            &&& head.is_prefix_of(run.exported())
            &&& run.result matches Some(result) ==> (head + ("result: "@ + result
                + "\n"@)).is_prefix_of(run.exported())
            &&& run.samples.len() > 0 ==> {
                let tail = run.samples.last().label + ": "@ + run.samples.last().value + "\n"@;
                tail.is_suffix_of(run.exported())
            }
        }),
{
    let head = run.kind.label_text() + " "@ + run.target_name + "\nstatus: "@
        + run.status.label_text() + "\n"@;
    let result = match run.result {
        Some(result) => "result: "@ + result + "\n"@,
        None => seq![],
    };
    let samples = exported_samples(run.samples);
    assert(run.exported() == head + result + samples);
    assert(head.is_prefix_of(run.exported())) by {
        assert(run.exported().subrange(0, head.len() as int) =~= head);
    }
    assert((head + result).is_prefix_of(run.exported())) by {
        assert(run.exported().subrange(0, (head + result).len() as int) =~= head + result);
    }
    if run.samples.len() > 0 {
        let last = run.samples.last();
        let tail = last.label + ": "@ + last.value + "\n"@;
        let before = exported_samples(run.samples.drop_last());
        assert(samples =~= before + tail);
        let n = run.exported().len();
        assert(run.exported().subrange(n - tail.len(), n as int) =~= tail);
    }
}

/// The three tool servers are offered in their order, with one sample each, and
/// say whether the target's tools can be used at all.
pub proof fn server_controls_follow_the_tools(profile: ForwarderProfile, runs: Vec<ToolRun>, i: int)
    requires
        call_ensures(tool_server_controls, (&profile,), runs),
        0 <= i < 3,
    ensures
        runs@.len() == 3,
        runs@[0].kind == ToolKind::Ping && runs@[1].kind == ToolKind::Iperf && runs@[2].kind
            == ToolKind::Put,
        runs@[i].status == ToolStatus::Streaming,
        runs@[i]@.samples.len() == 1,
        profile.capabilities.tools is Enabled || profile.capabilities.tools is ReadOnly || profile.capabilities.tools is Degraded
            ==> runs@[i]@.result == Some("server control available after session manager wiring"@),
        profile.capabilities.tools is Unsupported || profile.capabilities.tools is Disabled ==> runs@[i]@.result == Some(
            "server control unsupported by target"@,
        ),
{
    let texts = run_texts(runs@);
    assert(texts.len() == runs@.len());
    assert(texts[0] == runs@[0]@);
    assert(texts[1] == runs@[1]@);
    assert(texts[2] == runs@[2]@);
    assert(texts[i] == runs@[i]@);
}

} // verus!
