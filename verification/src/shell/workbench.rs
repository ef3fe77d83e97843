//! The tools workspace: its forms, the runs that were started from it, and
//! what is picked, opened, and exported of them.

use vstd::prelude::*;

use crate::list;
use crate::number;
use crate::number::decimal_size;
use crate::shell;
use crate::shell::{
    optional_text, parse_opt_usize, parse_u64_or, parse_usize_or, Tone,
};
use crate::text;
use crate::text::{ascii_lowercase, contains, join, same_text, trim};
use crate::tools;
use crate::tools::{
    IperfWorkflowConfig, PeekWorkflowConfig, PingWorkflowConfig, PutWorkflowConfig, ToolKind,
    ToolRun, ToolStatus,
};

verus! {

#[derive(Debug, PartialEq, Eq)]
pub struct ToolForm {
    pub ping_target: String,
    pub ping_count: String,
    pub ping_interval_ms: String,
    pub ping_lifetime_ms: String,
    pub peek_target: String,
    pub peek_lifetime_ms: String,
    pub peek_pipeline: String,
    pub peek_save_to: String,
    pub peek_can_be_prefix: bool,
    pub peek_hex: bool,
    pub peek_meta_only: bool,
    pub put_target: String,
    pub put_payload: String,
    pub put_chunk_size: String,
    pub put_freshness_ms: String,
    pub put_timeout_secs: String,
    pub put_sign: bool,
    pub put_hmac: bool,
    pub iperf_target: String,
    pub iperf_duration_secs: String,
    pub iperf_initial_window: String,
    pub iperf_lifetime_ms: String,
    pub iperf_interval_ms: String,
    pub iperf_cc: String,
    pub iperf_min_window: String,
    pub iperf_max_window: String,
    pub iperf_ai: String,
    pub iperf_md: String,
    pub iperf_cubic_c: String,
    pub iperf_reverse: bool,
    pub iperf_node_prefix: String,
    pub iperf_sign_mode: String,
    pub diagnostic_query: String,
}

/// What [`ToolForm`] says.
#[verifier::ext_equal]
pub struct ToolFormText {
    pub ping_target: Seq<char>,
    pub ping_count: Seq<char>,
    pub ping_interval_ms: Seq<char>,
    pub ping_lifetime_ms: Seq<char>,
    pub peek_target: Seq<char>,
    pub peek_lifetime_ms: Seq<char>,
    pub peek_pipeline: Seq<char>,
    pub peek_save_to: Seq<char>,
    pub peek_can_be_prefix: bool,
    pub peek_hex: bool,
    pub peek_meta_only: bool,
    pub put_target: Seq<char>,
    pub put_payload: Seq<char>,
    pub put_chunk_size: Seq<char>,
    pub put_freshness_ms: Seq<char>,
    pub put_timeout_secs: Seq<char>,
    pub put_sign: bool,
    pub put_hmac: bool,
    pub iperf_target: Seq<char>,
    pub iperf_duration_secs: Seq<char>,
    pub iperf_initial_window: Seq<char>,
    pub iperf_lifetime_ms: Seq<char>,
    pub iperf_interval_ms: Seq<char>,
    pub iperf_cc: Seq<char>,
    pub iperf_min_window: Seq<char>,
    pub iperf_max_window: Seq<char>,
    pub iperf_ai: Seq<char>,
    pub iperf_md: Seq<char>,
    pub iperf_cubic_c: Seq<char>,
    pub iperf_reverse: bool,
    pub iperf_node_prefix: Seq<char>,
    pub iperf_sign_mode: Seq<char>,
    pub diagnostic_query: Seq<char>,
}

impl View for ToolForm {
    type V = ToolFormText;

    open spec fn view(&self) -> ToolFormText {
        ToolFormText {
            ping_target: self.ping_target@,
            ping_count: self.ping_count@,
            ping_interval_ms: self.ping_interval_ms@,
            ping_lifetime_ms: self.ping_lifetime_ms@,
            peek_target: self.peek_target@,
            peek_lifetime_ms: self.peek_lifetime_ms@,
            peek_pipeline: self.peek_pipeline@,
            peek_save_to: self.peek_save_to@,
            peek_can_be_prefix: self.peek_can_be_prefix,
            peek_hex: self.peek_hex,
            peek_meta_only: self.peek_meta_only,
            put_target: self.put_target@,
            put_payload: self.put_payload@,
            put_chunk_size: self.put_chunk_size@,
            put_freshness_ms: self.put_freshness_ms@,
            put_timeout_secs: self.put_timeout_secs@,
            put_sign: self.put_sign,
            put_hmac: self.put_hmac,
            iperf_target: self.iperf_target@,
            iperf_duration_secs: self.iperf_duration_secs@,
            iperf_initial_window: self.iperf_initial_window@,
            iperf_lifetime_ms: self.iperf_lifetime_ms@,
            iperf_interval_ms: self.iperf_interval_ms@,
            iperf_cc: self.iperf_cc@,
            iperf_min_window: self.iperf_min_window@,
            iperf_max_window: self.iperf_max_window@,
            iperf_ai: self.iperf_ai@,
            iperf_md: self.iperf_md@,
            iperf_cubic_c: self.iperf_cubic_c@,
            iperf_reverse: self.iperf_reverse,
            iperf_node_prefix: self.iperf_node_prefix@,
            iperf_sign_mode: self.iperf_sign_mode@,
            diagnostic_query: self.diagnostic_query@,
        }
    }
}

impl Clone for ToolForm {
    fn clone(&self) -> (r: Self)
        ensures
            r == *self,
    {
        ToolForm {
            ping_target: self.ping_target.clone(),
            ping_count: self.ping_count.clone(),
            ping_interval_ms: self.ping_interval_ms.clone(),
            ping_lifetime_ms: self.ping_lifetime_ms.clone(),
            peek_target: self.peek_target.clone(),
            peek_lifetime_ms: self.peek_lifetime_ms.clone(),
            peek_pipeline: self.peek_pipeline.clone(),
            peek_save_to: self.peek_save_to.clone(),
            peek_can_be_prefix: self.peek_can_be_prefix,
            peek_hex: self.peek_hex,
            peek_meta_only: self.peek_meta_only,
            put_target: self.put_target.clone(),
            put_payload: self.put_payload.clone(),
            put_chunk_size: self.put_chunk_size.clone(),
            put_freshness_ms: self.put_freshness_ms.clone(),
            put_timeout_secs: self.put_timeout_secs.clone(),
            put_sign: self.put_sign,
            put_hmac: self.put_hmac,
            iperf_target: self.iperf_target.clone(),
            iperf_duration_secs: self.iperf_duration_secs.clone(),
            iperf_initial_window: self.iperf_initial_window.clone(),
            iperf_lifetime_ms: self.iperf_lifetime_ms.clone(),
            iperf_interval_ms: self.iperf_interval_ms.clone(),
            iperf_cc: self.iperf_cc.clone(),
            iperf_min_window: self.iperf_min_window.clone(),
            iperf_max_window: self.iperf_max_window.clone(),
            iperf_ai: self.iperf_ai.clone(),
            iperf_md: self.iperf_md.clone(),
            iperf_cubic_c: self.iperf_cubic_c.clone(),
            iperf_reverse: self.iperf_reverse,
            iperf_node_prefix: self.iperf_node_prefix.clone(),
            iperf_sign_mode: self.iperf_sign_mode.clone(),
            diagnostic_query: self.diagnostic_query.clone(),
        }
    }
}

/// The form as it is first shown.
pub open spec fn first_form() -> ToolFormText {
    ToolFormText {
        ping_target: "/demo/router"@,
        ping_count: "4"@,
        ping_interval_ms: "200"@,
        ping_lifetime_ms: "1000"@,
        peek_target: "/demo/data"@,
        peek_lifetime_ms: "800"@,
        peek_pipeline: seq![],
        peek_save_to: seq![],
        peek_can_be_prefix: false,
        peek_hex: false,
        peek_meta_only: false,
        put_target: "/demo/object"@,
        put_payload: "dashboard-next put payload\n"@,
        put_chunk_size: "0"@,
        put_freshness_ms: "1000"@,
        put_timeout_secs: "1"@,
        put_sign: false,
        put_hmac: false,
        iperf_target: "/demo/iperf"@,
        iperf_duration_secs: "1"@,
        iperf_initial_window: "4"@,
        iperf_lifetime_ms: "800"@,
        iperf_interval_ms: "500"@,
        iperf_cc: "aimd"@,
        iperf_min_window: "1"@,
        iperf_max_window: "128"@,
        iperf_ai: "1.0"@,
        iperf_md: "0.5"@,
        iperf_cubic_c: "0.4"@,
        iperf_reverse: false,
        iperf_node_prefix: seq![],
        iperf_sign_mode: "digest_sha256"@,
        diagnostic_query: "/demo/router"@,
    }
}

/// The number in a field, or another one.
pub open spec fn number_or(value: Seq<char>, fallback: nat) -> nat {
    match shell::field_u64(value) {
        Some(n) => n,
        None => fallback,
    }
}

/// The size in a field, or another one.
pub open spec fn size_or(value: Seq<char>, fallback: nat) -> nat {
    match shell::field_usize(value) {
        Some(n) => n,
        None => fallback,
    }
}

impl ToolForm {
    pub fn new() -> (r: Self)
        ensures
            r@ == first_form(),
    {
        let r = ToolForm {
            ping_target: "/demo/router".to_string(),
            ping_count: "4".to_string(),
            ping_interval_ms: "200".to_string(),
            ping_lifetime_ms: "1000".to_string(),
            peek_target: "/demo/data".to_string(),
            peek_lifetime_ms: "800".to_string(),
            peek_pipeline: String::new(),
            peek_save_to: String::new(),
            peek_can_be_prefix: false,
            peek_hex: false,
            peek_meta_only: false,
            put_target: "/demo/object".to_string(),
            put_payload: "dashboard-next put payload\n".to_string(),
            put_chunk_size: "0".to_string(),
            put_freshness_ms: "1000".to_string(),
            put_timeout_secs: "1".to_string(),
            put_sign: false,
            put_hmac: false,
            iperf_target: "/demo/iperf".to_string(),
            iperf_duration_secs: "1".to_string(),
            iperf_initial_window: "4".to_string(),
            iperf_lifetime_ms: "800".to_string(),
            iperf_interval_ms: "500".to_string(),
            iperf_cc: "aimd".to_string(),
            iperf_min_window: "1".to_string(),
            iperf_max_window: "128".to_string(),
            iperf_ai: "1.0".to_string(),
            iperf_md: "0.5".to_string(),
            iperf_cubic_c: "0.4".to_string(),
            iperf_reverse: false,
            iperf_node_prefix: String::new(),
            iperf_sign_mode: "digest_sha256".to_string(),
            diagnostic_query: "/demo/router".to_string(),
        };
        assert(r@ =~= first_form());
        r
    }

    pub fn ping_config(&self) -> (r: PingWorkflowConfig)
        ensures
            r.target_name@ == self@.ping_target,
            r.count == number_or(self@.ping_count, 4),
            r.interval_ms == number_or(self@.ping_interval_ms, 200),
            r.lifetime_ms == number_or(self@.ping_lifetime_ms, 1000),
    {
        PingWorkflowConfig {
            target_name: self.ping_target.clone(),
            count: parse_u64_or(self.ping_count.as_str(), 4),
            interval_ms: parse_u64_or(self.ping_interval_ms.as_str(), 200),
            lifetime_ms: parse_u64_or(self.ping_lifetime_ms.as_str(), 1000),
        }
    }

    pub fn peek_config(&self) -> (r: PeekWorkflowConfig)
        ensures
            r.target_name@ == self@.peek_target,
            r.lifetime_ms == number_or(self@.peek_lifetime_ms, 800),
            r.pipeline is Some <==> shell::field_usize(self@.peek_pipeline) is Some,
            r.pipeline matches Some(n) ==> shell::field_usize(self@.peek_pipeline) == Some(n as nat),
            text::opt_text(r.save_to) == shell::field_text(self@.peek_save_to),
            r.hex == self@.peek_hex,
            r.meta_only == self@.peek_meta_only,
            r.can_be_prefix == self@.peek_can_be_prefix,
    {
        PeekWorkflowConfig {
            target_name: self.peek_target.clone(),
            lifetime_ms: parse_u64_or(self.peek_lifetime_ms.as_str(), 800),
            pipeline: parse_opt_usize(self.peek_pipeline.as_str()),
            save_to: optional_text(self.peek_save_to.as_str()),
            hex: self.peek_hex,
            meta_only: self.peek_meta_only,
            can_be_prefix: self.peek_can_be_prefix,
        }
    }

    pub fn put_config(&self) -> (r: PutWorkflowConfig)
        ensures
            r.target_name@ == self@.put_target,
            r.payload@ == vstd::utf8::encode_utf8(self@.put_payload),
            r.chunk_size == size_or(self@.put_chunk_size, 0),
            r.freshness_ms == number_or(self@.put_freshness_ms, 1000),
            r.timeout_secs == number_or(self@.put_timeout_secs, 1),
            r.sign == self@.put_sign,
            r.hmac == self@.put_hmac,
    {
        PutWorkflowConfig {
            target_name: self.put_target.clone(),
            payload: vstd::slice::slice_to_vec(self.put_payload.as_str().as_bytes()),
            chunk_size: parse_usize_or(self.put_chunk_size.as_str(), 0),
            freshness_ms: parse_u64_or(self.put_freshness_ms.as_str(), 1000),
            timeout_secs: parse_u64_or(self.put_timeout_secs.as_str(), 1),
            sign: self.put_sign,
            hmac: self.put_hmac,
        }
    }

    /// The throughput test that the form asks for, given the tuning factors that
    /// its fields hold. Factors that the congestion control does not use are
    /// dropped, and so is the node prefix unless the test runs in reverse.
    pub fn iperf_config<F>(&self, factors: IperfFactors<F>) -> (r: IperfWorkflowConfig<F>)
        ensures
            r.target_name@ == self@.iperf_target,
            r.duration_secs == number_or(self@.iperf_duration_secs, 1),
            r.initial_window == size_or(self@.iperf_initial_window, 4),
            r.cc@ == self@.iperf_cc,
            r.min_window == (if self@.iperf_cc != "fixed"@ {
                factors.min_window
            } else {
                None
            }),
            r.max_window == (if self@.iperf_cc != "fixed"@ {
                factors.max_window
            } else {
                None
            }),
            r.ai == (if self@.iperf_cc == "aimd"@ {
                factors.ai
            } else {
                None
            }),
            r.md == (if self@.iperf_cc == "aimd"@ {
                factors.md
            } else {
                None
            }),
            r.cubic_c == (if self@.iperf_cc == "cubic"@ {
                factors.cubic_c
            } else {
                None
            }),
            r.lifetime_ms == number_or(self@.iperf_lifetime_ms, 800),
            r.interval_ms == number_or(self@.iperf_interval_ms, 500),
            r.reverse == self@.iperf_reverse,
            text::opt_text(r.node_prefix) == (if self@.iperf_reverse {
                shell::field_text(self@.iperf_node_prefix)
            } else {
                None
            }),
            r.sign_mode@ == self@.iperf_sign_mode,
    {
        let fixed = same_text(self.iperf_cc.as_str(), "fixed");
        let aimd = same_text(self.iperf_cc.as_str(), "aimd");
        let cubic = same_text(self.iperf_cc.as_str(), "cubic");
        IperfWorkflowConfig {
            target_name: self.iperf_target.clone(),
            duration_secs: parse_u64_or(self.iperf_duration_secs.as_str(), 1),
            initial_window: parse_usize_or(self.iperf_initial_window.as_str(), 4),
            cc: self.iperf_cc.clone(),
            min_window: if fixed {
                None
            } else {
                factors.min_window
            },
            max_window: if fixed {
                None
            } else {
                factors.max_window
            },
            ai: if aimd {
                factors.ai
            } else {
                None
            },
            md: if aimd {
                factors.md
            } else {
                None
            },
            cubic_c: if cubic {
                factors.cubic_c
            } else {
                None
            },
            lifetime_ms: parse_u64_or(self.iperf_lifetime_ms.as_str(), 800),
            interval_ms: parse_u64_or(self.iperf_interval_ms.as_str(), 500),
            reverse: self.iperf_reverse,
            node_prefix: if self.iperf_reverse {
                optional_text(self.iperf_node_prefix.as_str())
            } else {
                None
            },
            sign_mode: self.iperf_sign_mode.clone(),
        }
    }
}

/// The tuning factors of a throughput test.
pub struct IperfFactors<F> {
    pub min_window: Option<F>,
    pub max_window: Option<F>,
    pub ai: Option<F>,
    pub md: Option<F>,
    pub cubic_c: Option<F>,
}

pub fn tool_kind_icon(kind: ToolKind) -> (r: &'static str)
    ensures
        r@ == (match kind {
            ToolKind::Ping => "PG"@,
            ToolKind::Iperf => "IP"@,
            ToolKind::Peek => "PK"@,
            ToolKind::Put => "PT"@,
            ToolKind::TraceLookup => "TR"@,
            ToolKind::RouteDiagnostic => "RT"@,
            ToolKind::FaceDiagnostic => "FC"@,
            ToolKind::Export => "EX"@,
        }),
{
    match kind {
        ToolKind::Ping => "PG",
        ToolKind::Iperf => "IP",
        ToolKind::Peek => "PK",
        ToolKind::Put => "PT",
        ToolKind::TraceLookup => "TR",
        ToolKind::RouteDiagnostic => "RT",
        ToolKind::FaceDiagnostic => "FC",
        ToolKind::Export => "EX",
    }
}

pub fn tool_status_tone(status: ToolStatus) -> (r: Tone)
    ensures
        r == (match status {
            ToolStatus::Complete => Tone::Good,
            ToolStatus::Failed => Tone::Bad,
            ToolStatus::Cancelled => Tone::Amber,
            ToolStatus::Pending => Tone::Neutral,
            ToolStatus::Running => Tone::Neutral,
            ToolStatus::Streaming => Tone::Neutral,
        }),
{
    match status {
        ToolStatus::Complete => Tone::Good,
        ToolStatus::Failed => Tone::Bad,
        ToolStatus::Cancelled => Tone::Amber,
        ToolStatus::Pending | ToolStatus::Running | ToolStatus::Streaming => Tone::Neutral,
    }
}

// ---------------------------------------------------------------------------
// Keys and filters
// ---------------------------------------------------------------------------

/// What tells a run apart: its place, kind, target, and result or status.
pub open spec fn key_text(index: nat, run: tools::RunText) -> Seq<char> {
    number::decimal_text(index) + ":"@ + run.kind.label_text() + ":"@ + run.target_name + ":"@ + (
    match run.result {
        Some(result) => result,
        None => run.status.label_text(),
    })
}

pub fn tool_run_key(index: usize, run: &ToolRun) -> (r: String)
    ensures
        r@ == key_text(index as nat, run@),
{
    let state = match &run.result {
        Some(result) => result.as_str(),
        None => run.status.label(),
    };
    decimal_size(index).concat(":").concat(run.kind.label()).concat(":").concat(
        run.target_name.as_str(),
    ).concat(":").concat(state)
}

/// The text holds a needle when its ASCII letters are taken as lower case.
pub open spec fn holds(value: Seq<char>, needle: Seq<char>) -> bool {
    text::occurs(text::ascii_lower(value), needle)
}

/// The sample holds a needle.
pub open spec fn sample_holds(sample: tools::SampleText, needle: Seq<char>) -> bool {
    holds(sample.label, needle) || holds(sample.value, needle)
}

/// The run passes a filter: the filter is blank, or its kind, target, status,
/// result, or one of its samples holds it.
pub open spec fn run_passes(run: tools::RunText, filter: Seq<char>) -> bool {
    let needle = text::ascii_lower(text::trimmed(filter));
    ||| needle.len() == 0
    ||| text::occurs(run.kind.label_text(), needle)
    ||| holds(run.target_name, needle)
    ||| text::occurs(run.status.label_text(), needle)
    ||| (run.result matches Some(result) && holds(result, needle))
    ||| exists|i: int|
        0 <= i < run.samples.len() && sample_holds(#[trigger] run.samples[i], needle)
}

pub fn tool_run_matches_filter(run: &ToolRun, filter: &str) -> (r: bool)
    ensures
        r == run_passes(run@, filter@),
{
    let needle_text = ascii_lowercase(trim(filter));
    let needle = needle_text.as_str();
    if needle.is_empty() {
        return true;
    }
    if contains(run.kind.label(), needle) || contains(
        ascii_lowercase(run.target_name.as_str()).as_str(),
        needle,
    ) || contains(run.status.label(), needle) {
        return true;
    }
    if let Some(result) = &run.result {
        if contains(ascii_lowercase(result.as_str()).as_str(), needle) {
            return true;
        }
    }
    let mut i: usize = 0;
    while i < run.samples.len()
        invariant
            i <= run.samples@.len(),
            needle@ == text::ascii_lower(text::trimmed(filter@)),
            forall|j: int| 0 <= j < i ==> !sample_holds(#[trigger] run@.samples[j], needle@),
        decreases run.samples@.len() - i,
    {
        let sample = &run.samples[i];
        assert(run@.samples[i as int] == sample@);
        if contains(ascii_lowercase(sample.label.as_str()).as_str(), needle) || contains(
            ascii_lowercase(sample.value.as_str()).as_str(),
            needle,
        ) {
            assert(sample_holds(run@.samples[i as int], needle@));
            return true;
        }
        i = i + 1;
    }
    false
}

/// A run with its place in the list.
#[derive(Debug, PartialEq, Eq)]
pub struct IndexedRun {
    pub index: usize,
    pub run: ToolRun,
}

/// The mathematical value of a run with its place.
pub struct IndexedText {
    pub index: nat,
    pub run: tools::RunText,
}

impl View for IndexedRun {
    type V = IndexedText;

    open spec fn view(&self) -> IndexedText {
        IndexedText { index: self.index as nat, run: self.run@ }
    }
}

impl Clone for IndexedRun {
    fn clone(&self) -> (r: Self)
        ensures
            r@ == self@,
    {
        IndexedRun { index: self.index, run: self.run.clone() }
    }
}

/// The values of runs with their places.
pub open spec fn indexed_texts(runs: Seq<IndexedRun>) -> Seq<IndexedText> {
    runs.map_values(|run: IndexedRun| run@)
}

/// Runs with their places.
pub open spec fn numbered(runs: Seq<tools::RunText>) -> Seq<IndexedText> {
    Seq::new(runs.len(), |i: int| IndexedText { index: i as nat, run: runs[i] })
}

/// A text is among others.
pub open spec fn among(keys: Seq<Seq<char>>, key: Seq<char>) -> bool {
    keys.contains(key)
}

fn has_key(keys: &Vec<String>, key: &str) -> (r: bool)
    ensures
        r == among(text::string_texts(keys@), key@),
{
    let ghost all = text::string_texts(keys@);
    let mut i: usize = 0;
    while i < keys.len()
        invariant
            i <= keys@.len(),
            all == text::string_texts(keys@),
            forall|j: int| 0 <= j < i ==> #[trigger] all[j] != key@,
        decreases keys@.len() - i,
    {
        if same_text(keys[i].as_str(), key) {
            assert(all[i as int] == key@);
            return true;
        }
        i = i + 1;
    }
    false
}

/// The test for other keys.
pub open spec fn other_than(key: Seq<char>) -> spec_fn(Seq<char>) -> bool {
    |k: Seq<char>| k != key
}

/// The other keys.
pub open spec fn without(keys: Seq<Seq<char>>, key: Seq<char>) -> Seq<Seq<char>> {
    keys.filter(other_than(key))
}

/// The keys that equal one.
pub open spec fn only(keys: Seq<Seq<char>>, key: Seq<char>) -> Seq<Seq<char>> {
    keys.filter(|k: Seq<char>| k == key)
}

/// The keys that equal one, or the others.
fn keep_keys(keys: &Vec<String>, key: &str, equal: bool) -> (r: Vec<String>)
    ensures
        text::string_texts(r@) == (if equal {
            only(text::string_texts(keys@), key@)
        } else {
            without(text::string_texts(keys@), key@)
        }),
{
    let ghost all = text::string_texts(keys@);
    let ghost keep = |k: Seq<char>| (k == key@) == equal;
    let mut out: Vec<String> = Vec::new();
    let mut i: usize = 0;
    proof {
        list::lemma_filter_ends(all, keep);
        assert(text::string_texts(out@) =~= all.take(0).filter(keep));
    }
    while i < keys.len()
        invariant
            i <= keys@.len(),
            all == text::string_texts(keys@),
            keep == (|k: Seq<char>| (k == key@) == equal),
            text::string_texts(out@) == all.take(i as int).filter(keep),
        decreases keys@.len() - i,
    {
        proof {
            list::lemma_filter_next(all, keep, i as int);
        }
        let ghost before = out@;
        assert(all[i as int] == keys@[i as int]@);
        if same_text(keys[i].as_str(), key) == equal {
            let held = keys[i].clone();
            out.push(held);
            assert(text::string_texts(out@) =~= text::string_texts(before).push(held@));
        }
        i = i + 1;
    }
    proof {
        assert(all.take(i as int) =~= all);
        if equal {
            assert(keep =~= (|k: Seq<char>| k == key@));
        } else {
            assert(keep =~= other_than(key@));
        }
    }
    out
}

/// The runs whose flag is set, with their places.
fn pick_runs(
    runs: &Vec<ToolRun>,
    flags: &Vec<bool>,
    Ghost(keep): Ghost<spec_fn(IndexedText) -> bool>,
) -> (r: Vec<IndexedRun>)
    requires
        flags@.len() == runs@.len(),
        forall|i: int|
            0 <= i < runs@.len() ==> #[trigger] flags@[i] == keep(
                numbered(tools::run_texts(runs@))[i],
            ),
    ensures
        indexed_texts(r@) == numbered(tools::run_texts(runs@)).filter(keep),
{
    let ghost all = numbered(tools::run_texts(runs@));
    let mut out: Vec<IndexedRun> = Vec::new();
    let mut i: usize = 0;
    proof {
        list::lemma_filter_ends(all, keep);
        assert(indexed_texts(out@) =~= all.take(0).filter(keep));
    }
    while i < runs.len()
        invariant
            i <= runs@.len(),
            flags@.len() == runs@.len(),
            all == numbered(tools::run_texts(runs@)),
            forall|i: int| 0 <= i < runs@.len() ==> #[trigger] flags@[i] == keep(all[i]),
            indexed_texts(out@) == all.take(i as int).filter(keep),
        decreases runs@.len() - i,
    {
        proof {
            list::lemma_filter_next(all, keep, i as int);
        }
        let ghost before = out@;
        if flags[i] {
            let held = IndexedRun { index: i, run: runs[i].clone() };
            assert(held@ == all[i as int]);
            out.push(held);
            assert(indexed_texts(out@) =~= indexed_texts(before).push(held@));
        }
        i = i + 1;
    }
    assert(all.take(i as int) =~= all);
    out
}

/// What is exported of a run.
pub open spec fn export_block(run: IndexedText) -> Seq<char> {
    "run: "@ + key_text(run.index, run.run) + "\n"@ + run.run.exported()
}

/// The runs whose keys were picked.
pub open spec fn picked(runs: Seq<tools::RunText>, keys: Seq<Seq<char>>) -> Seq<IndexedText> {
    numbered(runs).filter(|run: IndexedText| among(keys, key_text(run.index, run.run)))
}

/// What is exported of the runs whose keys were picked.
pub open spec fn export_of(runs: Seq<tools::RunText>, keys: Seq<Seq<char>>) -> Seq<char> {
    text::joined(
        picked(runs, keys).map_values(|run: IndexedText| export_block(run)),
        "\n---\n"@,
    )
}

// ---------------------------------------------------------------------------
// The board
// ---------------------------------------------------------------------------

/// The runs of the workspace, the latest first, and which of them are picked
/// for export or opened.
#[derive(Debug)]
pub struct RunBoard {
    pub runs: Vec<ToolRun>,
    pub selected: Vec<String>,
    pub expanded: Vec<String>,
}

/// A run of a kind and target in a status.
pub open spec fn is_run_of(
    run: tools::RunText,
    kind: ToolKind,
    target: Seq<char>,
    status: ToolStatus,
) -> bool {
    run.kind == kind && run.target_name == target && run.status == status
}

/// The place of the first run of a kind and target in a status, or the length.
pub open spec fn place_of_run(
    runs: Seq<tools::RunText>,
    kind: ToolKind,
    target: Seq<char>,
    status: ToolStatus,
) -> int
    decreases runs.len(),
{
    if runs.len() == 0 {
        0
    } else if is_run_of(runs[0], kind, target, status) {
        0
    } else {
        1 + place_of_run(runs.drop_first(), kind, target, status)
    }
}

/// The runs with `run` in place of the first one of a kind and target in a
/// status, or before all.
pub open spec fn run_in_place(
    runs: Seq<tools::RunText>,
    kind: ToolKind,
    target: Seq<char>,
    status: ToolStatus,
    run: tools::RunText,
) -> Seq<tools::RunText> {
    let place = place_of_run(runs, kind, target, status);
    if place < runs.len() {
        runs.update(place, run)
    } else {
        runs.insert(0, run)
    }
}

fn find_run(runs: &Vec<ToolRun>, kind: ToolKind, target: &str, status: ToolStatus) -> (r: usize)
    ensures
        r == place_of_run(tools::run_texts(runs@), kind, target@, status),
        r <= runs@.len(),
{
    let ghost all = tools::run_texts(runs@);
    assert(all.skip(0) =~= all);
    let mut i: usize = 0;
    while i < runs.len()
        invariant
            i <= runs@.len(),
            all == tools::run_texts(runs@),
            place_of_run(all, kind, target@, status) == i + place_of_run(
                all.skip(i as int),
                kind,
                target@,
                status,
            ),
        decreases runs@.len() - i,
    {
        let run = &runs[i];
        assert(all.skip(i as int)[0] == run@);
        if run.kind == kind && same_text(run.target_name.as_str(), target) && run.status == status {
            return i;
        }
        assert(all.skip(i as int).drop_first() =~= all.skip(i + 1));
        i = i + 1;
    }
    i
}

/// What downloading the export came to.
pub open spec fn download_text(download: Result<String, String>) -> Seq<char> {
    match download {
        Ok(place) => place@,
        Err(err) => "download failed: "@ + err@,
    }
}

/// The run that shows an export.
pub open spec fn export_run(
    count: nat,
    body: Seq<char>,
    download: Result<String, String>,
) -> tools::RunText {
    tools::RunText::fresh(ToolKind::Export, "selected tool results"@).started().with_sample(
        "selected"@,
        number::decimal_text(count),
    ).with_sample("download"@, download_text(download)).with_sample(
        "download text"@,
        body,
    ).completed("selected result export prepared"@)
}

impl RunBoard {
    pub fn new(runs: Vec<ToolRun>) -> (r: Self)
        ensures
            r.runs == runs,
            r.selected@.len() == 0,
            r.expanded@.len() == 0,
    {
        RunBoard { runs, selected: Vec::new(), expanded: Vec::new() }
    }

    /// The values of the runs.
    pub open spec fn texts(self) -> Seq<tools::RunText> {
        tools::run_texts(self.runs@)
    }

    /// Nothing but the runs differs.
    pub open spec fn only_runs(self, before: RunBoard) -> bool {
        self.selected == before.selected && self.expanded == before.expanded
    }

    /// Puts a run before all others.
    pub fn add_run(&mut self, run: ToolRun)
        ensures
            final(self).texts() == old(self).texts().insert(0, run@),
            final(self).only_runs(*old(self)),
    {
        let ghost shown = run@;
        self.runs.insert(0, run);
        assert(self.texts() =~= old(self).texts().insert(0, shown));
    }

    /// Shows a tool as running.
    pub fn start_run(&mut self, kind: ToolKind, target_name: &str)
        ensures
            final(self).texts() == old(self).texts().insert(
                0,
                tools::RunText::fresh(kind, target_name@).started(),
            ),
            final(self).only_runs(*old(self)),
    {
        self.add_run(ToolRun::new(kind, target_name).start());
    }

    fn put_run(&mut self, kind: ToolKind, target_name: &str, status: ToolStatus, run: ToolRun)
        ensures
            final(self).texts() == run_in_place(
                old(self).texts(),
                kind,
                target_name@,
                status,
                run@,
            ),
            final(self).only_runs(*old(self)),
    {
        let ghost shown = run@;
        let place = find_run(&self.runs, kind, target_name, status);
        if place < self.runs.len() {
            self.runs.set(place, run);
            assert(self.texts() =~= old(self).texts().update(place as int, shown));
        } else {
            self.add_run(run);
        }
    }

    /// Takes in a run that has ended.
    pub fn settle_run(&mut self, run: ToolRun)
        ensures
            final(self).texts() == run_in_place(
                old(self).texts(),
                run.kind,
                run.target_name@,
                ToolStatus::Running,
                run@,
            ),
            final(self).only_runs(*old(self)),
    {
        let kind = run.kind;
        let target_name = run.target_name.clone();
        self.put_run(kind, target_name.as_str(), ToolStatus::Running, run);
    }

    /// Cancels a run.
    pub fn cancel_run(&mut self, run: &ToolRun)
        ensures
            final(self).texts() == run_in_place(
                old(self).texts(),
                run.kind,
                run.target_name@,
                run.status,
                run@.cancelled(),
            ),
            final(self).only_runs(*old(self)),
    {
        let cancelled = run.clone().cancel();
        self.put_run(run.kind, run.target_name.as_str(), run.status, cancelled);
    }

    /// Adds a copy of a run that holds its own export.
    pub fn export_run(&mut self, run: &ToolRun)
        ensures
            final(self).texts() == old(self).texts().insert(
                0,
                run@.with_sample("export"@, run@.exported()),
            ),
            final(self).only_runs(*old(self)),
    {
        let mut next = run.clone();
        let body = next.export_text();
        next.add_sample("export", body.as_str());
        self.add_run(next);
    }

    /// The runs that pass a filter.
    pub fn visible_runs(&self, filter: &str) -> (r: Vec<IndexedRun>)
        ensures
            indexed_texts(r@) == numbered(self.texts()).filter(
                |run: IndexedText| run_passes(run.run, filter@),
            ),
    {
        let ghost keep = |run: IndexedText| run_passes(run.run, filter@);
        let mut flags: Vec<bool> = Vec::new();
        let mut i: usize = 0;
        while i < self.runs.len()
            invariant
                i <= self.runs@.len(),
                flags@.len() == i,
                keep == (|run: IndexedText| run_passes(run.run, filter@)),
                forall|k: int| 0 <= k < i ==> #[trigger] flags@[k] == keep(numbered(self.texts())[k]),
            decreases self.runs@.len() - i,
        {
            flags.push(tool_run_matches_filter(&self.runs[i], filter));
            i = i + 1;
        }
        pick_runs(&self.runs, &flags, Ghost(keep))
    }

    /// The runs that have failed.
    pub fn failed_runs(&self) -> (r: Vec<IndexedRun>)
        ensures
            indexed_texts(r@) == numbered(self.texts()).filter(
                |run: IndexedText| run.run.status is Failed,
            ),
    {
        let ghost keep = |run: IndexedText| run.run.status is Failed;
        let mut flags: Vec<bool> = Vec::new();
        let mut i: usize = 0;
        while i < self.runs.len()
            invariant
                i <= self.runs@.len(),
                flags@.len() == i,
                keep == (|run: IndexedText| run.run.status is Failed),
                forall|k: int| 0 <= k < i ==> #[trigger] flags@[k] == keep(numbered(self.texts())[k]),
            decreases self.runs@.len() - i,
        {
            flags.push(self.runs[i].status == ToolStatus::Failed);
            i = i + 1;
        }
        pick_runs(&self.runs, &flags, Ghost(keep))
    }

    fn runs_among(&self, keys: &Vec<String>) -> (r: Vec<IndexedRun>)
        ensures
            indexed_texts(r@) == picked(self.texts(), text::string_texts(keys@)),
    {
        let ghost names = text::string_texts(keys@);
        let ghost keep = |run: IndexedText| among(names, key_text(run.index, run.run));
        let mut flags: Vec<bool> = Vec::new();
        let mut i: usize = 0;
        while i < self.runs.len()
            invariant
                i <= self.runs@.len(),
                flags@.len() == i,
                names == text::string_texts(keys@),
                keep == (|run: IndexedText| among(names, key_text(run.index, run.run))),
                forall|k: int| 0 <= k < i ==> #[trigger] flags@[k] == keep(numbered(self.texts())[k]),
            decreases self.runs@.len() - i,
        {
            let key = tool_run_key(i, &self.runs[i]);
            flags.push(has_key(keys, key.as_str()));
            i = i + 1;
        }
        pick_runs(&self.runs, &flags, Ghost(keep))
    }

    /// The runs that are opened.
    pub fn detail_runs(&self) -> (r: Vec<IndexedRun>)
        ensures
            indexed_texts(r@) == picked(self.texts(), text::string_texts(self.expanded@)),
    {
        self.runs_among(&self.expanded)
    }

    /// Whether a run is picked for export.
    pub fn is_selected(&self, key: &str) -> (r: bool)
        ensures
            r == among(text::string_texts(self.selected@), key@),
    {
        has_key(&self.selected, key)
    }

    /// Whether a run is opened.
    pub fn is_expanded(&self, key: &str) -> (r: bool)
        ensures
            r == among(text::string_texts(self.expanded@), key@),
    {
        has_key(&self.expanded, key)
    }

    /// Picks a run for export, or takes that back.
    pub fn select_run(&mut self, key: &str, checked: bool)
        ensures
            text::string_texts(final(self).selected@) == ({
                let keys = text::string_texts(old(self).selected@);
                if !checked {
                    without(keys, key@)
                } else if among(keys, key@) {
                    keys
                } else {
                    keys.push(key@)
                }
            }),
            final(self).runs == old(self).runs,
            final(self).expanded == old(self).expanded,
    {
        if !checked {
            self.selected = keep_keys(&self.selected, key, false);
        } else if !has_key(&self.selected, key) {
            let ghost before = self.selected@;
            self.selected.push(key.to_string());
            assert(text::string_texts(self.selected@) =~= text::string_texts(before).push(key@));
        }
    }

    /// Picks no run for export.
    pub fn clear_selected(&mut self)
        ensures
            final(self).selected@.len() == 0,
            final(self).runs == old(self).runs,
            final(self).expanded == old(self).expanded,
    {
        self.selected = Vec::new();
    }

    /// Opens a run, or closes it where it is open.
    pub fn toggle_run(&mut self, key: &str)
        ensures
            text::string_texts(final(self).expanded@) == ({
                let keys = text::string_texts(old(self).expanded@);
                if among(keys, key@) {
                    without(keys, key@)
                } else {
                    keys.push(key@)
                }
            }),
            final(self).runs == old(self).runs,
            final(self).selected == old(self).selected,
    {
        if has_key(&self.expanded, key) {
            self.close_run(key);
        } else {
            let ghost before = self.expanded@;
            self.expanded.push(key.to_string());
            assert(text::string_texts(self.expanded@) =~= text::string_texts(before).push(key@));
        }
    }

    /// Closes a run.
    pub fn close_run(&mut self, key: &str)
        ensures
            text::string_texts(final(self).expanded@) == without(
                text::string_texts(old(self).expanded@),
                key@,
            ),
            final(self).runs == old(self).runs,
            final(self).selected == old(self).selected,
    {
        self.expanded = keep_keys(&self.expanded, key, false);
    }

    /// Closes every run but one.
    pub fn focus_run(&mut self, key: &str)
        ensures
            text::string_texts(final(self).expanded@) == only(
                text::string_texts(old(self).expanded@),
                key@,
            ),
            final(self).runs == old(self).runs,
            final(self).selected == old(self).selected,
    {
        self.expanded = keep_keys(&self.expanded, key, true);
    }

    /// The export of the runs that are picked.
    pub fn selected_export(&self) -> (r: String)
        ensures
            r@ == export_of(self.texts(), text::string_texts(self.selected@)),
    {
        let rows = self.runs_among(&self.selected);
        let ghost block = |run: IndexedText| export_block(run);
        let ghost all = indexed_texts(rows@);
        let mut blocks: Vec<String> = Vec::new();
        let mut i: usize = 0;
        while i < rows.len()
            invariant
                i <= rows@.len(),
                all == indexed_texts(rows@),
                block == (|run: IndexedText| export_block(run)),
                blocks@.len() == i,
                forall|k: int| 0 <= k < i ==> (#[trigger] blocks@[k])@ == block(all[k]),
            decreases rows@.len() - i,
        {
            let row = &rows[i];
            let key = tool_run_key(row.index, &row.run);
            blocks.push(
                "run: ".to_string().concat(key.as_str()).concat("\n").concat(
                    row.run.export_text().as_str(),
                ),
            );
            i = i + 1;
        }
        assert(text::string_texts(blocks@) =~= all.map_values(block));
        join(&blocks, "\n---\n")
    }

    /// Adds a run that shows the export of the picked runs, and where it went.
    pub fn export_selected(&mut self, body: &str, download: Result<String, String>)
        ensures
            final(self).texts() == old(self).texts().insert(
                0,
                export_run(old(self).selected@.len(), body@, download),
            ),
            final(self).only_runs(*old(self)),
    {
        let message = match download {
            Ok(place) => place,
            Err(err) => "download failed: ".to_string().concat(err.as_str()),
        };
        let run = ToolRun::new(ToolKind::Export, "selected tool results").start().push_sample(
            "selected",
            decimal_size(self.selected.len()).as_str(),
        ).push_sample("download", message.as_str()).push_sample("download text", body).complete(
            "selected result export prepared",
        );
        self.add_run(run);
    }
}

/// A run that was just started is shown once: when it has ended, it stands
/// where it was shown as running.
pub proof fn each_run_is_shown_once(runs: Seq<tools::RunText>, ended: tools::RunText)
    ensures
        run_in_place(
            runs.insert(0, tools::RunText::fresh(ended.kind, ended.target_name).started()),
            ended.kind,
            ended.target_name,
            ToolStatus::Running,
            ended,
        ) == runs.insert(0, ended),
{
    let started = tools::RunText::fresh(ended.kind, ended.target_name).started();
    assert(runs.insert(0, started)[0] == started);
    assert(run_in_place(
        runs.insert(0, started),
        ended.kind,
        ended.target_name,
        ToolStatus::Running,
        ended,
    ) =~= runs.insert(0, ended));
}

/// A blank filter keeps every run.
pub proof fn blank_filter_shows_all(runs: Seq<tools::RunText>, filter: Seq<char>)
    requires
        text::trimmed(filter).len() == 0,
    ensures
        numbered(runs).filter(|run: IndexedText| run_passes(run.run, filter)) == numbered(runs),
{
    let keep = |run: IndexedText| run_passes(run.run, filter);
    assert forall|i: int| 0 <= i < numbered(runs).len() implies keep(
        #[trigger] numbered(runs)[i],
    ) by {
        assert(text::ascii_lower(text::trimmed(filter)).len() == 0);
    }
    list::lemma_filter_keeps_all(numbered(runs), keep);
}

/// Keys tell runs at different places apart.
pub proof fn keys_tell_places_apart(
    i: nat,
    run: tools::RunText,
    j: nat,
    other: tools::RunText,
)
    requires
        key_text(i, run) == key_text(j, other),
    ensures
        i == j,
{
    let a = number::decimal_text(i);
    let b = number::decimal_text(j);
    let key = key_text(i, run);
    number::lemma_decimal_reads(i);
    number::lemma_decimal_reads(j);
    reveal_strlit(":");
    assert(key[a.len() as int] == ':');
    assert(key[b.len() as int] == ':');
    if a.len() < b.len() {
        assert(number::is_digit(b[a.len() as int]));
    }
    if b.len() < a.len() {
        assert(number::is_digit(a[b.len() as int]));
    }
    assert forall|k: int| 0 <= k < a.len() implies a[k] == b[k] by {
        assert(key[k] == a[k]);
        assert(key[k] == b[k]);
    }
    assert(a =~= b);
    number::decimal_is_injective(i, j);
}

/// Opening a closed run and closing it again leaves the same runs open.
pub proof fn closing_undoes_opening(keys: Seq<Seq<char>>, key: Seq<char>)
    requires
        !among(keys, key),
    ensures
        without(keys.push(key), key) == keys,
{
    let keep = other_than(key);
    list::lemma_filter_next(keys.push(key), keep, keys.len() as int);
    assert(keys.push(key).take(keys.len() as int) =~= keys);
    assert(keys.push(key).take(keys.len() as int + 1) =~= keys.push(key));
    assert forall|i: int| 0 <= i < keys.len() implies keep(#[trigger] keys[i]) by {
        assert(keys.contains(keys[i]));
    }
    list::lemma_filter_keeps_all(keys, keep);
    assert(!keep(keys.push(key)[keys.len() as int]));
}

/// A run passes a filter exactly where the filter is blank, or stands in lower
/// case in the tool, the target, the status, the result, or one of the samples.
pub proof fn filters_look_into_the_runs(run: tools::RunText, filter: Seq<char>)
    ensures
        ({
            let needle = text::ascii_lower(text::trimmed(filter));
            run_passes(run, filter) <==> {
                ||| needle.len() == 0
                ||| text::occurs(run.kind.label_text(), needle)
                ||| text::occurs(text::ascii_lower(run.target_name), needle)
                ||| text::occurs(run.status.label_text(), needle)
                ||| run.result is Some && text::occurs(text::ascii_lower(run.result->0), needle)
                ||| exists|i: int|
                    0 <= i < run.samples.len() && (text::occurs(
                        text::ascii_lower((#[trigger] run.samples[i]).label),
                        needle,
                    ) || text::occurs(text::ascii_lower(run.samples[i].value), needle))
            }
        }),
{
    let needle = text::ascii_lower(text::trimmed(filter));
    assert forall|i: int| 0 <= i < run.samples.len() implies sample_holds(
        #[trigger] run.samples[i],
        needle,
    ) == (text::occurs(text::ascii_lower(run.samples[i].label), needle) || text::occurs(
        text::ascii_lower(run.samples[i].value),
        needle,
    )) by {}
}

proof fn lemma_place_of_run(
    runs: Seq<tools::RunText>,
    kind: ToolKind,
    target: Seq<char>,
    status: ToolStatus,
    k: int,
)
    requires
        0 <= k <= runs.len(),
        forall|j: int| 0 <= j < k ==> !is_run_of(#[trigger] runs[j], kind, target, status),
        k < runs.len() ==> is_run_of(runs[k], kind, target, status),
    ensures
        place_of_run(runs, kind, target, status) == k,
    decreases k,
{
    if k > 0 {
        let rest = runs.drop_first();
        assert(!is_run_of(runs[0], kind, target, status));
        assert forall|j: int| 0 <= j < k - 1 implies !is_run_of(
            #[trigger] rest[j],
            kind,
            target,
            status,
        ) by {
            assert(rest[j] == runs[j + 1]);
        }
        if k < runs.len() {
            assert(rest[k - 1] == runs[k]);
        }
        lemma_place_of_run(rest, kind, target, status, k - 1);
    }
}

/// A run that changes takes the place of the first one with its tool, target and
/// status, and every other run stays; where there is none it comes first.
pub proof fn runs_take_their_place(
    runs: Seq<tools::RunText>,
    kind: ToolKind,
    target: Seq<char>,
    status: ToolStatus,
    run: tools::RunText,
    k: int,
)
    requires
        0 <= k <= runs.len(),
        forall|j: int|
            0 <= j < k ==> !((#[trigger] runs[j]).kind == kind && runs[j].target_name == target
                && runs[j].status == status),
        k < runs.len() ==> runs[k].kind == kind && runs[k].target_name == target && runs[k].status
            == status,
    ensures
        k < runs.len() ==> run_in_place(runs, kind, target, status, run) == runs.update(k, run),
        k == runs.len() ==> run_in_place(runs, kind, target, status, run) == seq![run] + runs,
{
    assert forall|j: int| 0 <= j < k implies !is_run_of(
        #[trigger] runs[j],
        kind,
        target,
        status,
    ) by {}
    lemma_place_of_run(runs, kind, target, status, k);
    if k == runs.len() {
        assert(runs.insert(0, run) =~= seq![run] + runs);
    }
}

/// A numeral in a field is its number, and a blank field leaves the default.
pub proof fn form_numbers_are_read(value: Seq<char>, fallback: nat, n: u64)
    ensures
        text::trimmed(value) == number::decimal_text(n as nat) ==> number_or(value, fallback) == n,
        text::trimmed(value).len() == 0 ==> number_or(value, fallback) == fallback && size_or(
            value,
            fallback,
        ) == fallback,
{
    shell::fields_hold_their_numbers(value, n, 0);
}

/// The export of one selected run is headed by its key and holds its text.
pub proof fn exports_are_headed_by_their_key(run: IndexedText)
    ensures
        export_block(run) == "run: "@ + key_text(run.index, run.run) + "\n"@ + run.run.exported(),
        key_text(run.index, run.run) == number::decimal_text(run.index) + ":"@
            + run.run.kind.label_text() + ":"@ + run.run.target_name + ":"@ + (
        match run.run.result {
            Some(result) => result,
            None => run.run.status.label_text(),
        }),
{
}

/// What is prepared for an export tells how many runs were selected, where the
/// download went, and the whole text.
pub proof fn prepared_exports_tell_the_text(
    count: nat,
    body: Seq<char>,
    download: Result<String, String>,
)
    ensures
        ({
            let run = export_run(count, body, download);
            &&& run.kind is Export && run.status is Complete
            &&& run.samples.len() == 3
            &&& run.samples[0] == tools::sample("selected"@, number::decimal_text(count))
            &&& download matches Ok(place) ==> run.samples[1] == tools::sample(
                "download"@,
                place@,
            )
            &&& download matches Err(err) ==> run.samples[1] == tools::sample(
                "download"@,
                "download failed: "@ + err@,
            )
            &&& run.samples[2] == tools::sample("download text"@, body)
        }),
{
}

/// Selecting adds a key once, unselecting takes it away, and no other key
/// changes.
pub proof fn selecting_changes_one_key(keys: Seq<Seq<char>>, key: Seq<char>, other: Seq<char>)
    ensures
        !without(keys, key).contains(key),
        other != key ==> (without(keys, key).contains(other) <==> keys.contains(other)),
        only(keys, key).contains(key) <==> keys.contains(key),
        other != key ==> !only(keys, key).contains(other),
{
    broadcast use vstd::seq_lib::group_filter_ensures;
    broadcast use Seq::lemma_filter_contains_rev;

    let pred = other_than(key);
    if keys.contains(other) {
        let i = choose|i: int| 0 <= i < keys.len() && keys[i] == other;
        assert(pred(other) == (other != key));
        if other != key {
            assert(keys.filter(pred).contains(keys[i]));
        }
    }
    if keys.contains(key) {
        let i = choose|i: int| 0 <= i < keys.len() && keys[i] == key;
        assert(only(keys, key).contains(keys[i]));
    }
    if without(keys, key).contains(key) {
        let i = choose|i: int| 0 <= i < without(keys, key).len() && without(keys, key)[i] == key;
        assert(pred(without(keys, key)[i]));
    }
    if only(keys, key).contains(other) {
        let i = choose|i: int| 0 <= i < only(keys, key).len() && only(keys, key)[i] == other;
        assert(only(keys, key)[i] == key);
    }
}

/// A numbered run keeps its number and its run where some are left out.
proof fn lemma_kept(runs: Seq<tools::RunText>, keep: spec_fn(IndexedText) -> bool, n: int, i: int)
    ensures
        0 <= n < numbered(runs).filter(keep).len() ==> ({
            let shown = numbered(runs).filter(keep)[n];
            &&& keep(shown)
            &&& 0 <= shown.index < runs.len()
            &&& shown.run == runs[shown.index as int]
        }),
        0 <= i < runs.len() && keep(numbered(runs)[i]) ==> numbered(runs).filter(keep).contains(
            IndexedText { index: i as nat, run: runs[i] },
        ),
{
    broadcast use vstd::seq_lib::group_filter_ensures;

    let all = numbered(runs);
    let kept = all.filter(keep);
    if 0 <= n < kept.len() {
        assert(kept.contains(kept[n]));
        all.lemma_filter_contains_rev(keep, kept[n]);
        let k = choose|k: int| 0 <= k < all.len() && all[k] == kept[n];
        assert(all[k].index == k);
    }
    if 0 <= i < runs.len() && keep(all[i]) {
        assert(kept.contains(all[i]));
    }
}

/// The runs shown as failed are those that failed, under their own numbers.
pub proof fn failed_runs_are_shown(board: RunBoard, shown: Vec<IndexedRun>, n: int, i: int)
    requires
        call_ensures(RunBoard::failed_runs, (&board,), shown),
    ensures
        0 <= n < shown@.len() ==> 0 <= shown@[n].index < board.runs@.len() && shown@[n].run@
            == board.runs@[shown@[n].index as int]@ && board.runs@[shown@[n].index as int].status
            == ToolStatus::Failed,
        0 <= i < board.runs@.len() && board.runs@[i].status == ToolStatus::Failed ==> exists|k: int|
            0 <= k < shown@.len() && (#[trigger] shown@[k]).index == i,
{
    let texts = board.texts();
    let keep = |run: IndexedText| run.run.status is Failed;
    lemma_kept(texts, keep, n, i);
    let rows = indexed_texts(shown@);
    assert(rows == numbered(texts).filter(keep));
    assert(rows.len() == shown@.len());
    if 0 <= n < shown@.len() {
        assert(rows[n] == shown@[n]@);
        assert(keep(rows[n]));
        assert(texts[shown@[n].index as int] == board.runs@[shown@[n].index as int]@);
    }
    if 0 <= i < board.runs@.len() && board.runs@[i].status == ToolStatus::Failed {
        assert(texts[i] == board.runs@[i]@);
        assert(keep(numbered(texts)[i]));
        let own = IndexedText { index: i as nat, run: texts[i] };
        assert(rows.contains(own));
        let k = choose|k: int| 0 <= k < rows.len() && rows[k] == own;
        assert(rows[k] == shown@[k]@);
        assert(shown@[k].index == i);
    }
}

} // verus!
