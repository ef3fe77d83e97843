//! Trust and identity as an operator sees them.
//!
//! Trust semantics and keys stay outside: the models here only put the state of
//! a trust context into rows and postures, and own no private key.

use vstd::prelude::*;

use crate::list;
use crate::model::{AttachMode, FeatureState, ForwarderKind, ForwarderProfile, TrustPosture};
use crate::text;
use crate::text::{copy_texts, replace_char, same_text, starts_with};

pub mod live;

pub use crate::identity::live::{EnrollmentExecutionReport, TofuAdoptionReport, TofuAdoptionRequest};

verus! {

// ---------------------------------------------------------------------------
// Rows
// ---------------------------------------------------------------------------

#[derive(Debug, PartialEq, Eq)]
pub struct TrustContextRow {
    pub namespace: String,
    pub state: &'static str,
    pub source: &'static str,
    pub posture: TrustPosture,
}

/// What [`TrustContextRow`] says.
#[verifier::ext_equal]
pub struct ContextText {
    pub namespace: Seq<char>,
    pub state: Seq<char>,
    pub source: Seq<char>,
    pub posture: TrustPosture,
}

impl View for TrustContextRow {
    type V = ContextText;

    open spec fn view(&self) -> ContextText {
        ContextText {
            namespace: self.namespace@,
            state: self.state@,
            source: self.source@,
            posture: self.posture,
        }
    }
}

impl Clone for TrustContextRow {
    fn clone(&self) -> (r: Self)
        ensures
            r == *self,
    {
        TrustContextRow {
            namespace: self.namespace.clone(),
            state: self.state,
            source: self.source,
            posture: self.posture,
        }
    }
}

/// What rows of [`TrustContextRow`] say.
pub open spec fn context_texts(rows: Seq<TrustContextRow>) -> Seq<ContextText> {
    rows.map_values(|row: TrustContextRow| row@)
}

#[derive(Debug, PartialEq, Eq)]
pub struct IdentityRow {
    pub name: String,
    pub custodian: &'static str,
    pub certificate: &'static str,
    pub active: bool,
    pub private_key_owned_by_dashboard: bool,
}

/// What [`IdentityRow`] says.
#[verifier::ext_equal]
pub struct IdentityText {
    pub name: Seq<char>,
    pub custodian: Seq<char>,
    pub certificate: Seq<char>,
    pub active: bool,
    pub private_key_owned_by_dashboard: bool,
}

impl View for IdentityRow {
    type V = IdentityText;

    open spec fn view(&self) -> IdentityText {
        IdentityText {
            name: self.name@,
            custodian: self.custodian@,
            certificate: self.certificate@,
            active: self.active,
            private_key_owned_by_dashboard: self.private_key_owned_by_dashboard,
        }
    }
}

impl Clone for IdentityRow {
    fn clone(&self) -> (r: Self)
        ensures
            r == *self,
    {
        IdentityRow {
            name: self.name.clone(),
            custodian: self.custodian,
            certificate: self.certificate,
            active: self.active,
            private_key_owned_by_dashboard: self.private_key_owned_by_dashboard,
        }
    }
}

/// What rows of [`IdentityRow`] say.
pub open spec fn identity_texts(rows: Seq<IdentityRow>) -> Seq<IdentityText> {
    rows.map_values(|row: IdentityRow| row@)
}

#[derive(Debug, PartialEq, Eq)]
pub struct AnchorRow {
    pub name: String,
    pub fingerprint: String,
    pub origin: &'static str,
    pub state: &'static str,
}

/// What [`AnchorRow`] says.
#[verifier::ext_equal]
pub struct AnchorText {
    pub name: Seq<char>,
    pub fingerprint: Seq<char>,
    pub origin: Seq<char>,
    pub state: Seq<char>,
}

impl View for AnchorRow {
    type V = AnchorText;

    open spec fn view(&self) -> AnchorText {
        AnchorText {
            name: self.name@,
            fingerprint: self.fingerprint@,
            origin: self.origin@,
            state: self.state@,
        }
    }
}

impl Clone for AnchorRow {
    fn clone(&self) -> (r: Self)
        ensures
            r == *self,
    {
        AnchorRow {
            name: self.name.clone(),
            fingerprint: self.fingerprint.clone(),
            origin: self.origin,
            state: self.state,
        }
    }
}

/// What rows of [`AnchorRow`] say.
pub open spec fn anchor_texts(rows: Seq<AnchorRow>) -> Seq<AnchorText> {
    rows.map_values(|row: AnchorRow| row@)
}

#[derive(Debug, PartialEq, Eq)]
pub struct SchemaSummaryRow {
    pub namespace: String,
    pub rules: usize,
    pub strictness: &'static str,
    pub version: String,
}

/// What [`SchemaSummaryRow`] says.
#[verifier::ext_equal]
pub struct SchemaText {
    pub namespace: Seq<char>,
    pub rules: usize,
    pub strictness: Seq<char>,
    pub version: Seq<char>,
}

impl View for SchemaSummaryRow {
    type V = SchemaText;

    open spec fn view(&self) -> SchemaText {
        SchemaText {
            namespace: self.namespace@,
            rules: self.rules,
            strictness: self.strictness@,
            version: self.version@,
        }
    }
}

impl Clone for SchemaSummaryRow {
    fn clone(&self) -> (r: Self)
        ensures
            r == *self,
    {
        SchemaSummaryRow {
            namespace: self.namespace.clone(),
            rules: self.rules,
            strictness: self.strictness,
            version: self.version.clone(),
        }
    }
}

/// What rows of [`SchemaSummaryRow`] say.
pub open spec fn schema_texts(rows: Seq<SchemaSummaryRow>) -> Seq<SchemaText> {
    rows.map_values(|row: SchemaSummaryRow| row@)
}

#[derive(Debug, PartialEq, Eq)]
pub struct ApprovalRow {
    pub subject: String,
    pub requester: String,
    pub challenge: &'static str,
    pub state: &'static str,
}

/// What [`ApprovalRow`] says.
#[verifier::ext_equal]
pub struct ApprovalText {
    pub subject: Seq<char>,
    pub requester: Seq<char>,
    pub challenge: Seq<char>,
    pub state: Seq<char>,
}

impl View for ApprovalRow {
    type V = ApprovalText;

    open spec fn view(&self) -> ApprovalText {
        ApprovalText {
            subject: self.subject@,
            requester: self.requester@,
            challenge: self.challenge@,
            state: self.state@,
        }
    }
}

impl Clone for ApprovalRow {
    fn clone(&self) -> (r: Self)
        ensures
            r == *self,
    {
        ApprovalRow {
            subject: self.subject.clone(),
            requester: self.requester.clone(),
            challenge: self.challenge,
            state: self.state,
        }
    }
}

/// What rows of [`ApprovalRow`] say.
pub open spec fn approval_texts(rows: Seq<ApprovalRow>) -> Seq<ApprovalText> {
    rows.map_values(|row: ApprovalRow| row@)
}

#[derive(Debug, PartialEq, Eq)]
pub struct KeyInventoryRow {
    pub identity: String,
    pub key_name: String,
    pub algorithm: &'static str,
    pub storage: &'static str,
    pub certificate_state: &'static str,
}

/// What [`KeyInventoryRow`] says.
#[verifier::ext_equal]
pub struct KeyText {
    pub identity: Seq<char>,
    pub key_name: Seq<char>,
    pub algorithm: Seq<char>,
    pub storage: Seq<char>,
    pub certificate_state: Seq<char>,
}

impl View for KeyInventoryRow {
    type V = KeyText;

    open spec fn view(&self) -> KeyText {
        KeyText {
            identity: self.identity@,
            key_name: self.key_name@,
            algorithm: self.algorithm@,
            storage: self.storage@,
            certificate_state: self.certificate_state@,
        }
    }
}

impl Clone for KeyInventoryRow {
    fn clone(&self) -> (r: Self)
        ensures
            r == *self,
    {
        KeyInventoryRow {
            identity: self.identity.clone(),
            key_name: self.key_name.clone(),
            algorithm: self.algorithm,
            storage: self.storage,
            certificate_state: self.certificate_state,
        }
    }
}

/// What rows of [`KeyInventoryRow`] say.
pub open spec fn key_texts(rows: Seq<KeyInventoryRow>) -> Seq<KeyText> {
    rows.map_values(|row: KeyInventoryRow| row@)
}

#[derive(Debug, PartialEq, Eq)]
pub struct ValidationTraceRow {
    pub packet_name: String,
    pub signer: String,
    pub outcome: &'static str,
    pub rule: &'static str,
}

/// What [`ValidationTraceRow`] says.
#[verifier::ext_equal]
pub struct TraceText {
    pub packet_name: Seq<char>,
    pub signer: Seq<char>,
    pub outcome: Seq<char>,
    pub rule: Seq<char>,
}

impl View for ValidationTraceRow {
    type V = TraceText;

    open spec fn view(&self) -> TraceText {
        TraceText {
            packet_name: self.packet_name@,
            signer: self.signer@,
            outcome: self.outcome@,
            rule: self.rule@,
        }
    }
}

impl Clone for ValidationTraceRow {
    fn clone(&self) -> (r: Self)
        ensures
            r == *self,
    {
        ValidationTraceRow {
            packet_name: self.packet_name.clone(),
            signer: self.signer.clone(),
            outcome: self.outcome,
            rule: self.rule,
        }
    }
}

/// What rows of [`ValidationTraceRow`] say.
pub open spec fn trace_texts(rows: Seq<ValidationTraceRow>) -> Seq<TraceText> {
    rows.map_values(|row: ValidationTraceRow| row@)
}

#[derive(Debug, PartialEq, Eq)]
pub struct ValidationChainStep {
    pub name: String,
    pub signed_by: String,
    pub anchor: bool,
}

/// What [`ValidationChainStep`] says.
#[verifier::ext_equal]
pub struct StepText {
    pub name: Seq<char>,
    pub signed_by: Seq<char>,
    pub anchor: bool,
}

impl View for ValidationChainStep {
    type V = StepText;

    open spec fn view(&self) -> StepText {
        StepText {
            name: self.name@,
            signed_by: self.signed_by@,
            anchor: self.anchor,
        }
    }
}

impl Clone for ValidationChainStep {
    fn clone(&self) -> (r: Self)
        ensures
            r == *self,
    {
        ValidationChainStep {
            name: self.name.clone(),
            signed_by: self.signed_by.clone(),
            anchor: self.anchor,
        }
    }
}

/// What rows of [`ValidationChainStep`] say.
pub open spec fn step_texts(rows: Seq<ValidationChainStep>) -> Seq<StepText> {
    rows.map_values(|row: ValidationChainStep| row@)
}

#[derive(Debug, PartialEq, Eq)]
pub struct ValidationRuleRow {
    pub data_pattern: String,
    pub key_pattern: String,
    pub matches: bool,
}

/// What [`ValidationRuleRow`] says.
#[verifier::ext_equal]
pub struct RuleText {
    pub data_pattern: Seq<char>,
    pub key_pattern: Seq<char>,
    pub matches: bool,
}

impl View for ValidationRuleRow {
    type V = RuleText;

    open spec fn view(&self) -> RuleText {
        RuleText {
            data_pattern: self.data_pattern@,
            key_pattern: self.key_pattern@,
            matches: self.matches,
        }
    }
}

impl Clone for ValidationRuleRow {
    fn clone(&self) -> (r: Self)
        ensures
            r == *self,
    {
        ValidationRuleRow {
            data_pattern: self.data_pattern.clone(),
            key_pattern: self.key_pattern.clone(),
            matches: self.matches,
        }
    }
}

/// What rows of [`ValidationRuleRow`] say.
pub open spec fn rule_texts(rows: Seq<ValidationRuleRow>) -> Seq<RuleText> {
    rows.map_values(|row: ValidationRuleRow| row@)
}

#[derive(Debug, PartialEq, Eq)]
pub struct SchemaReviewRow {
    pub namespace: String,
    pub change: &'static str,
    pub posture: TrustPosture,
    pub operator_action: &'static str,
}

/// What [`SchemaReviewRow`] says.
#[verifier::ext_equal]
pub struct ReviewText {
    pub namespace: Seq<char>,
    pub change: Seq<char>,
    pub posture: TrustPosture,
    pub operator_action: Seq<char>,
}

impl View for SchemaReviewRow {
    type V = ReviewText;

    open spec fn view(&self) -> ReviewText {
        ReviewText {
            namespace: self.namespace@,
            change: self.change@,
            posture: self.posture,
            operator_action: self.operator_action@,
        }
    }
}

impl Clone for SchemaReviewRow {
    fn clone(&self) -> (r: Self)
        ensures
            r == *self,
    {
        SchemaReviewRow {
            namespace: self.namespace.clone(),
            change: self.change,
            posture: self.posture,
            operator_action: self.operator_action,
        }
    }
}

/// What rows of [`SchemaReviewRow`] say.
pub open spec fn review_texts(rows: Seq<SchemaReviewRow>) -> Seq<ReviewText> {
    rows.map_values(|row: SchemaReviewRow| row@)
}

#[derive(Debug, PartialEq, Eq)]
pub struct CustodyWarning {
    pub title: &'static str,
    pub detail: &'static str,
    pub owns_private_keys: bool,
}

/// What [`CustodyWarning`] says.
#[verifier::ext_equal]
pub struct CustodyText {
    pub title: Seq<char>,
    pub detail: Seq<char>,
    pub owns_private_keys: bool,
}

impl View for CustodyWarning {
    type V = CustodyText;

    open spec fn view(&self) -> CustodyText {
        CustodyText {
            title: self.title@,
            detail: self.detail@,
            owns_private_keys: self.owns_private_keys,
        }
    }
}

impl Clone for CustodyWarning {
    fn clone(&self) -> (r: Self)
        ensures
            r == *self,
    {
        CustodyWarning {
            title: self.title,
            detail: self.detail,
            owns_private_keys: self.owns_private_keys,
        }
    }
}

#[derive(Debug, PartialEq, Eq)]
pub struct AdoptionFlowState {
    pub available: bool,
    pub namespace_hint: String,
    pub fingerprint_hint: String,
    pub requires_oob_confirmation: bool,
    pub state: &'static str,
    pub next_action: &'static str,
}

/// What [`AdoptionFlowState`] says.
#[verifier::ext_equal]
pub struct AdoptionText {
    pub available: bool,
    pub namespace_hint: Seq<char>,
    pub fingerprint_hint: Seq<char>,
    pub requires_oob_confirmation: bool,
    pub state: Seq<char>,
    pub next_action: Seq<char>,
}

impl View for AdoptionFlowState {
    type V = AdoptionText;

    open spec fn view(&self) -> AdoptionText {
        AdoptionText {
            available: self.available,
            namespace_hint: self.namespace_hint@,
            fingerprint_hint: self.fingerprint_hint@,
            requires_oob_confirmation: self.requires_oob_confirmation,
            state: self.state@,
            next_action: self.next_action@,
        }
    }
}

impl Clone for AdoptionFlowState {
    fn clone(&self) -> (r: Self)
        ensures
            r == *self,
    {
        AdoptionFlowState {
            available: self.available,
            namespace_hint: self.namespace_hint.clone(),
            fingerprint_hint: self.fingerprint_hint.clone(),
            requires_oob_confirmation: self.requires_oob_confirmation,
            state: self.state,
            next_action: self.next_action,
        }
    }
}

#[derive(Debug, PartialEq, Eq)]
pub struct EnrollmentFlowState {
    pub available: bool,
    pub ca_endpoints: Vec<String>,
    pub challenge_summary: String,
    pub subject_hint: String,
    pub state: &'static str,
    pub next_action: &'static str,
}

/// What [`EnrollmentFlowState`] says.
#[verifier::ext_equal]
pub struct EnrollmentText {
    pub available: bool,
    pub ca_endpoints: Seq<Seq<char>>,
    pub challenge_summary: Seq<char>,
    pub subject_hint: Seq<char>,
    pub state: Seq<char>,
    pub next_action: Seq<char>,
}

impl View for EnrollmentFlowState {
    type V = EnrollmentText;

    open spec fn view(&self) -> EnrollmentText {
        EnrollmentText {
            available: self.available,
            ca_endpoints: text::string_texts(self.ca_endpoints@),
            challenge_summary: self.challenge_summary@,
            subject_hint: self.subject_hint@,
            state: self.state@,
            next_action: self.next_action@,
        }
    }
}

impl Clone for EnrollmentFlowState {
    fn clone(&self) -> (r: Self)
        ensures
            r@ == self@,
    {
        EnrollmentFlowState {
            available: self.available,
            ca_endpoints: copy_texts(&self.ca_endpoints),
            challenge_summary: self.challenge_summary.clone(),
            subject_hint: self.subject_hint.clone(),
            state: self.state,
            next_action: self.next_action,
        }
    }
}

#[derive(Debug, PartialEq, Eq)]
pub struct DidFrame {
    pub did: String,
    pub source_name: String,
    pub verification_methods: usize,
    pub services: usize,
    pub also_known_as: Vec<String>,
}

/// What [`DidFrame`] says.
#[verifier::ext_equal]
pub struct DidText {
    pub did: Seq<char>,
    pub source_name: Seq<char>,
    pub verification_methods: usize,
    pub services: usize,
    pub also_known_as: Seq<Seq<char>>,
}

impl View for DidFrame {
    type V = DidText;

    open spec fn view(&self) -> DidText {
        DidText {
            did: self.did@,
            source_name: self.source_name@,
            verification_methods: self.verification_methods,
            services: self.services,
            also_known_as: text::string_texts(self.also_known_as@),
        }
    }
}

impl Clone for DidFrame {
    fn clone(&self) -> (r: Self)
        ensures
            r@ == self@,
    {
        DidFrame {
            did: self.did.clone(),
            source_name: self.source_name.clone(),
            verification_methods: self.verification_methods,
            services: self.services,
            also_known_as: copy_texts(&self.also_known_as),
        }
    }
}

/// What rows of [`DidFrame`] say.
pub open spec fn did_texts(rows: Seq<DidFrame>) -> Seq<DidText> {
    rows.map_values(|row: DidFrame| row@)
}

#[derive(Debug, PartialEq, Eq)]
pub struct SafeBagImportState {
    pub available: bool,
    pub summary: &'static str,
    pub warnings: Vec<&'static str>,
}

impl Clone for SafeBagImportState {
    fn clone(&self) -> (r: Self)
        ensures
            r.warnings@ == self.warnings@,
            r.available == self.available,
            r.summary == self.summary,
    {
        let r = SafeBagImportState {
            warnings: self.warnings.clone(),
            available: self.available,
            summary: self.summary,
        };
        assert(r.warnings@ =~= self.warnings@);
        r
    }
}

/// What [`SafeBagImportState`] says.
#[verifier::ext_equal]
pub struct SafeBagText {
    pub available: bool,
    pub summary: Seq<char>,
    pub warnings: Seq<Seq<char>>,
}

impl View for SafeBagImportState {
    type V = SafeBagText;

    open spec fn view(&self) -> SafeBagText {
        SafeBagText {
            available: self.available,
            summary: self.summary@,
            warnings: text::texts(self.warnings@),
        }
    }
}

#[derive(Debug, PartialEq, Eq)]
pub struct ValidationFrame {
    pub target: String,
    pub verdict: &'static str,
    pub failure: Option<String>,
    pub chain: Vec<ValidationChainStep>,
    pub rules: Vec<ValidationRuleRow>,
}

impl Clone for ValidationFrame {
    fn clone(&self) -> (r: Self)
        ensures
            r.chain@ == self.chain@,
            r.rules@ == self.rules@,
            r.target == self.target,
            r.verdict == self.verdict,
            r.failure == self.failure,
    {
        let r = ValidationFrame {
            chain: self.chain.clone(),
            rules: self.rules.clone(),
            target: self.target.clone(),
            verdict: self.verdict,
            failure: self.failure.clone(),
        };
        assert(r.chain@ =~= self.chain@);
        assert(r.rules@ =~= self.rules@);
        r
    }
}

/// What [`ValidationFrame`] says.
#[verifier::ext_equal]
pub struct FrameText {
    pub target: Seq<char>,
    pub verdict: Seq<char>,
    pub failure: Option<Seq<char>>,
    pub chain: Seq<StepText>,
    pub rules: Seq<RuleText>,
}

impl View for ValidationFrame {
    type V = FrameText;

    open spec fn view(&self) -> FrameText {
        FrameText {
            target: self.target@,
            verdict: self.verdict@,
            failure: text::opt_text(self.failure),
            chain: step_texts(self.chain@),
            rules: rule_texts(self.rules@),
        }
    }
}

#[derive(Debug, PartialEq, Eq)]
pub struct TrustContextSummary {
    pub namespace: String,
    pub identity: String,
    pub anchors: usize,
    pub schema_rules: usize,
    pub pending_approvals: usize,
    pub posture: TrustPosture,
    pub contexts: Vec<TrustContextRow>,
    pub identities: Vec<IdentityRow>,
    pub anchors_detail: Vec<AnchorRow>,
    pub schema_summaries: Vec<SchemaSummaryRow>,
    pub approvals: Vec<ApprovalRow>,
    pub safebag_import: SafeBagImportState,
    pub key_inventory: Vec<KeyInventoryRow>,
    pub validation_traces: Vec<ValidationTraceRow>,
    pub schema_reviews: Vec<SchemaReviewRow>,
    pub custody: CustodyWarning,
    pub adoption: AdoptionFlowState,
    pub enrollment: EnrollmentFlowState,
    pub validation_frame: Option<ValidationFrame>,
    pub did_frames: Vec<DidFrame>,
}

impl Clone for TrustContextSummary {
    fn clone(&self) -> (r: Self)
        ensures
            r.contexts@ == self.contexts@,
            r.identities@ == self.identities@,
            r.anchors_detail@ == self.anchors_detail@,
            r.schema_summaries@ == self.schema_summaries@,
            r.approvals@ == self.approvals@,
            r.key_inventory@ == self.key_inventory@,
            r.validation_traces@ == self.validation_traces@,
            r.schema_reviews@ == self.schema_reviews@,
            r.namespace == self.namespace,
            r.identity == self.identity,
            r.anchors == self.anchors,
            r.schema_rules == self.schema_rules,
            r.pending_approvals == self.pending_approvals,
            r.posture == self.posture,
            r.safebag_import@ == self.safebag_import@,
            r.custody == self.custody,
            r.adoption == self.adoption,
            r.enrollment@ == self.enrollment@,
            match self.validation_frame {
                Some(frame) => r.validation_frame matches Some(copy) && copy@ == frame@,
                None => r.validation_frame is None,
            },
            did_texts(r.did_frames@) == did_texts(self.did_frames@),
    {
        let r = TrustContextSummary {
            contexts: self.contexts.clone(),
            identities: self.identities.clone(),
            anchors_detail: self.anchors_detail.clone(),
            schema_summaries: self.schema_summaries.clone(),
            approvals: self.approvals.clone(),
            key_inventory: self.key_inventory.clone(),
            validation_traces: self.validation_traces.clone(),
            schema_reviews: self.schema_reviews.clone(),
            namespace: self.namespace.clone(),
            identity: self.identity.clone(),
            anchors: self.anchors,
            schema_rules: self.schema_rules,
            pending_approvals: self.pending_approvals,
            posture: self.posture,
            safebag_import: self.safebag_import.clone(),
            custody: self.custody.clone(),
            adoption: self.adoption.clone(),
            enrollment: self.enrollment.clone(),
            validation_frame: match &self.validation_frame {
                Some(frame) => Some(frame.clone()),
                None => None,
            },
            did_frames: self.did_frames.clone(),
        };
        assert(r.contexts@ =~= self.contexts@);
        assert(r.identities@ =~= self.identities@);
        assert(r.anchors_detail@ =~= self.anchors_detail@);
        assert(r.schema_summaries@ =~= self.schema_summaries@);
        assert(r.approvals@ =~= self.approvals@);
        assert(r.key_inventory@ =~= self.key_inventory@);
        assert(r.validation_traces@ =~= self.validation_traces@);
        assert(r.schema_reviews@ =~= self.schema_reviews@);
        assert(did_texts(r.did_frames@) =~= did_texts(self.did_frames@));
        r
    }
}

// ---------------------------------------------------------------------------
// Counting
// ---------------------------------------------------------------------------

/// The rules of all schemas together.
pub open spec fn rules_total(rows: Seq<SchemaText>) -> nat
    decreases rows.len(),
{
    if rows.len() == 0 {
        0
    } else {
        rules_total(rows.drop_last()) + rows.last().rules as nat
    }
}

pub proof fn lemma_rules_total_grows(rows: Seq<SchemaText>, n: int)
    requires
        0 <= n <= rows.len(),
    ensures
        rules_total(rows.take(n)) <= rules_total(rows),
    decreases rows.len() - n,
{
    if n < rows.len() {
        lemma_rules_total_grows(rows, n + 1);
        assert(rows.take(n + 1).drop_last() =~= rows.take(n));
    } else {
        assert(rows.take(n) =~= rows);
    }
}

/// The rules of all schemas together.
pub fn count_rules(rows: &Vec<SchemaSummaryRow>) -> (r: usize)
    requires
        rules_total(schema_texts(rows@)) <= usize::MAX,
    ensures
        r == rules_total(schema_texts(rows@)),
{
    let ghost all = schema_texts(rows@);
    let mut total: usize = 0;
    let mut i: usize = 0;
    assert(all.take(0) =~= seq![]);
    while i < rows.len()
        invariant
            i <= rows@.len(),
            all == schema_texts(rows@),
            total == rules_total(all.take(i as int)),
            rules_total(all) <= usize::MAX,
        decreases rows@.len() - i,
    {
        proof {
            assert(all.take(i + 1).drop_last() =~= all.take(i as int));
            assert(all.take(i + 1).last() == rows@[i as int]@);
            lemma_rules_total_grows(all, i + 1);
        }
        total = total + rows[i].rules;
        i = i + 1;
    }
    assert(all.take(i as int) =~= all);
    total
}

/// The name of the first active identity.
pub open spec fn first_active(rows: Seq<IdentityText>) -> Option<Seq<char>>
    decreases rows.len(),
{
    if rows.len() == 0 {
        None
    } else if rows[0].active {
        Some(rows[0].name)
    } else {
        first_active(rows.drop_first())
    }
}

/// The identity to show: the first active one, else the first, else a word.
pub open spec fn shown_identity(rows: Seq<IdentityText>, word: Seq<char>) -> Seq<char> {
    match first_active(rows) {
        Some(name) => name,
        None => if rows.len() > 0 {
            rows[0].name
        } else {
            word
        },
    }
}

/// The identity to show: the first active one, else the first, else a word.
pub fn pick_identity(rows: &Vec<IdentityRow>, word: &str) -> (r: String)
    ensures
        r@ == shown_identity(identity_texts(rows@), word@),
{
    let ghost all = identity_texts(rows@);
    let mut i: usize = 0;
    assert(all.skip(0) =~= all);
    while i < rows.len()
        invariant
            i <= rows@.len(),
            all == identity_texts(rows@),
            first_active(all) == first_active(all.skip(i as int)),
        decreases rows@.len() - i,
    {
        assert(all.skip(i as int)[0] == rows@[i as int]@);
        if rows[i].active {
            return rows[i].name.clone();
        }
        assert(all.skip(i as int).drop_first() =~= all.skip(i + 1));
        i = i + 1;
    }
    assert(all.skip(i as int) =~= seq![]);
    if rows.len() > 0 {
        rows[0].name.clone()
    } else {
        word.to_string()
    }
}

/// The namespace of the first context, else a word.
pub open spec fn shown_namespace(rows: Seq<ContextText>, word: Seq<char>) -> Seq<char> {
    if rows.len() > 0 {
        rows[0].namespace
    } else {
        word
    }
}

/// The namespace of the first context, else a word.
pub fn pick_namespace(rows: &Vec<TrustContextRow>, word: &str) -> (r: String)
    ensures
        r@ == shown_namespace(context_texts(rows@), word@),
{
    if rows.len() > 0 {
        rows[0].namespace.clone()
    } else {
        word.to_string()
    }
}

// ---------------------------------------------------------------------------
// Stand-in rows
// ---------------------------------------------------------------------------

/// The target is reached through a browser.
pub open spec fn in_browser(profile: ForwarderProfile) -> bool {
    profile.attach_mode is BrowserEngine || profile.attach_mode is RemoteWeb
}

/// Trust is limited to a sandbox.
pub open spec fn is_sandboxed(profile: ForwarderProfile) -> bool {
    profile.capabilities.trust_context is Degraded
}

/// The kind of forwarder as one component of a name.
pub open spec fn kind_component(profile: ForwarderProfile) -> Seq<char> {
    text::replaced(profile.kind.label_text(), ' ', "-"@)
}

fn reached_by_browser(profile: &ForwarderProfile) -> (r: bool)
    ensures
        r == in_browser(*profile),
{
    matches!(profile.attach_mode, AttachMode::BrowserEngine | AttachMode::RemoteWeb)
}

fn component_of_kind(profile: &ForwarderProfile) -> (r: String)
    ensures
        r@ == kind_component(*profile),
{
    replace_char(profile.kind.label(), ' ', "-")
}

pub open spec fn context_views(profile: ForwarderProfile, posture: TrustPosture) -> Seq<
    ContextText,
> {
    seq![
        ContextText {
            namespace: "/local/operator"@,
            state: if posture is Valid {
                "active"@
            } else {
                "needs review"@
            },
            source: "ndn-security TrustContext"@,
            posture,
        },
        ContextText {
            namespace: "/"@ + kind_component(profile) + "/mgmt"@,
            state: "read-only"@,
            source: "forwarder management profile"@,
            posture: if is_sandboxed(profile) {
                TrustPosture::Weakened
            } else {
                posture
            },
        },
    ]
}

fn context_rows(profile: &ForwarderProfile, posture: TrustPosture) -> (r: Vec<TrustContextRow>)
    ensures
        context_texts(r@) == context_views(*profile, posture),
{
    let r = vec![
        TrustContextRow {
            namespace: "/local/operator".to_string(),
            state: if posture == TrustPosture::Valid {
                "active"
            } else {
                "needs review"
            },
            source: "ndn-security TrustContext",
            posture,
        },
        TrustContextRow {
            namespace: "/".to_string().concat(component_of_kind(profile).as_str()).concat("/mgmt"),
            state: "read-only",
            source: "forwarder management profile",
            posture: if profile.capabilities.trust_context == FeatureState::Degraded {
                TrustPosture::Weakened
            } else {
                posture
            },
        },
    ];
    assert(context_texts(r@) =~= context_views(*profile, posture));
    r
}

/// Who keeps the keys of the identities on a target.
pub open spec fn custodian_text(mode: AttachMode) -> Seq<char> {
    match mode {
        AttachMode::BrowserEngine => "browser custodian"@,
        AttachMode::RemoteWeb => "browser custodian"@,
        AttachMode::Relay => "relay custodian"@,
        AttachMode::LocalDesktop => "desktop PIB/custodian"@,
    }
}

/// The row of an identity whose key the dashboard does not own.
pub open spec fn identity_view(
    name: Seq<char>,
    custodian: Seq<char>,
    certificate: Seq<char>,
    active: bool,
) -> IdentityText {
    IdentityText {
        name,
        custodian,
        certificate,
        active,
        private_key_owned_by_dashboard: false,
    }
}

pub open spec fn identity_views(profile: ForwarderProfile, posture: TrustPosture) -> Seq<
    IdentityText,
> {
    if posture is NoIdentity {
        seq![identity_view("no active identity"@, "none"@, "missing"@, false)]
    } else {
        seq![
            identity_view(
                "/local/operator/dashboard"@,
                custodian_text(profile.attach_mode),
                if posture is Expired {
                    "expired"@
                } else {
                    "valid"@
                },
                true,
            ),
            identity_view(
                "/local/operator/recovery"@,
                custodian_text(profile.attach_mode),
                "standby"@,
                false,
            ),
        ]
    }
}

fn identity_rows(profile: &ForwarderProfile, posture: TrustPosture) -> (r: Vec<IdentityRow>)
    ensures
        identity_texts(r@) == identity_views(*profile, posture),
{
    if posture == TrustPosture::NoIdentity {
        let r = vec![
            IdentityRow {
                name: "no active identity".to_string(),
                custodian: "none",
                certificate: "missing",
                active: false,
                private_key_owned_by_dashboard: false,
            },
        ];
        assert(identity_texts(r@) =~= identity_views(*profile, posture));
        return r;
    }
    let custodian = match profile.attach_mode {
        AttachMode::BrowserEngine | AttachMode::RemoteWeb => "browser custodian",
        AttachMode::Relay => "relay custodian",
        AttachMode::LocalDesktop => "desktop PIB/custodian",
    };
    let r = vec![
        IdentityRow {
            name: "/local/operator/dashboard".to_string(),
            custodian,
            certificate: if posture == TrustPosture::Expired {
                "expired"
            } else {
                "valid"
            },
            active: true,
            private_key_owned_by_dashboard: false,
        },
        IdentityRow {
            name: "/local/operator/recovery".to_string(),
            custodian,
            certificate: "standby",
            active: false,
            private_key_owned_by_dashboard: false,
        },
    ];
    assert(identity_texts(r@) =~= identity_views(*profile, posture));
    r
}

pub open spec fn anchor_views(profile: ForwarderProfile) -> Seq<AnchorText> {
    if is_sandboxed(profile) {
        seq![
            AnchorText {
                name: "/sandbox/root"@,
                fingerprint: "sha256:2f9b...sandbox"@,
                origin: "browser fixture"@,
                state: "sandbox"@,
            },
        ]
    } else {
        seq![
            AnchorText {
                name: "/ndn/anchor/operator"@,
                fingerprint: "sha256:7cc9...a14e"@,
                origin: "configured anchor"@,
                state: "trusted"@,
            },
            AnchorText {
                name: "/ndn/anchor/ca"@,
                fingerprint: "sha256:51a2...90bf"@,
                origin: "NDNCERT CA"@,
                state: "trusted"@,
            },
        ]
    }
}

fn anchor_rows(profile: &ForwarderProfile) -> (r: Vec<AnchorRow>)
    ensures
        anchor_texts(r@) == anchor_views(*profile),
{
    let r = if profile.capabilities.trust_context == FeatureState::Degraded {
        vec![
            AnchorRow {
                name: "/sandbox/root".to_string(),
                fingerprint: "sha256:2f9b...sandbox".to_string(),
                origin: "browser fixture",
                state: "sandbox",
            },
        ]
    } else {
        vec![
            AnchorRow {
                name: "/ndn/anchor/operator".to_string(),
                fingerprint: "sha256:7cc9...a14e".to_string(),
                origin: "configured anchor",
                state: "trusted",
            },
            AnchorRow {
                name: "/ndn/anchor/ca".to_string(),
                fingerprint: "sha256:51a2...90bf".to_string(),
                origin: "NDNCERT CA",
                state: "trusted",
            },
        ]
    };
    assert(anchor_texts(r@) =~= anchor_views(*profile));
    r
}

pub open spec fn schema_views(profile: ForwarderProfile, posture: TrustPosture) -> Seq<SchemaText> {
    seq![
        SchemaText {
            namespace: "/local/operator/<KEY>"@,
            rules: 3,
            strictness: if posture is Weakened {
                "weakened"@
            } else {
                "strict"@
            },
            version: "v3"@,
        },
        SchemaText {
            namespace: "/"@ + kind_component(profile) + "/data"@,
            rules: if is_sandboxed(profile) {
                2
            } else {
                5
            },
            strictness: "compatible"@,
            version: "v1"@,
        },
    ]
}

fn schema_rows(profile: &ForwarderProfile, posture: TrustPosture) -> (r: Vec<SchemaSummaryRow>)
    ensures
        schema_texts(r@) == schema_views(*profile, posture),
{
    let r = vec![
        SchemaSummaryRow {
            namespace: "/local/operator/<KEY>".to_string(),
            rules: 3,
            strictness: if posture == TrustPosture::Weakened {
                "weakened"
            } else {
                "strict"
            },
            version: "v3".to_string(),
        },
        SchemaSummaryRow {
            namespace: "/".to_string().concat(component_of_kind(profile).as_str()).concat("/data"),
            rules: if profile.capabilities.trust_context == FeatureState::Degraded {
                2
            } else {
                5
            },
            strictness: "compatible",
            version: "v1".to_string(),
        },
    ];
    assert(schema_texts(r@) =~= schema_views(*profile, posture));
    r
}

pub open spec fn approval_views(profile: ForwarderProfile, posture: TrustPosture) -> Seq<
    ApprovalText,
> {
    if posture is Valid || posture is Weakened {
        seq![
            ApprovalText {
                subject: "/local/operator/device/phone/KEY/%01"@,
                requester: "/local/operator/device/phone"@,
                challenge: if in_browser(profile) {
                    "browser-custodian"@
                } else {
                    "device-approval"@
                },
                state: "pending operator review"@,
            },
        ]
    } else {
        seq![]
    }
}

fn approval_rows(profile: &ForwarderProfile, posture: TrustPosture) -> (r: Vec<ApprovalRow>)
    ensures
        approval_texts(r@) == approval_views(*profile, posture),
{
    let mut r: Vec<ApprovalRow> = Vec::new();
    if posture == TrustPosture::Valid || posture == TrustPosture::Weakened {
        r.push(
            ApprovalRow {
                subject: "/local/operator/device/phone/KEY/%01".to_string(),
                requester: "/local/operator/device/phone".to_string(),
                challenge: if reached_by_browser(profile) {
                    "browser-custodian"
                } else {
                    "device-approval"
                },
                state: "pending operator review",
            },
        );
    }
    assert(approval_texts(r@) =~= approval_views(*profile, posture));
    r
}

/// The key of an identity.
pub open spec fn key_of(row: IdentityText) -> KeyText {
    KeyText {
        identity: row.name,
        key_name: row.name + "/KEY/%01"@,
        algorithm: "Ed25519"@,
        storage: row.custodian,
        certificate_state: row.certificate,
    }
}

/// The row stands for an identity that there is.
pub open spec fn is_present(row: IdentityText) -> bool {
    row.name != "no active identity"@
}

/// The keys of the identities that there are.
pub open spec fn keys_of(rows: Seq<IdentityText>) -> Seq<KeyText> {
    rows.filter(|row: IdentityText| is_present(row)).map_values(|row: IdentityText| key_of(row))
}

fn key_rows(identities: &Vec<IdentityRow>) -> (r: Vec<KeyInventoryRow>)
    ensures
        key_texts(r@) == keys_of(identity_texts(identities@)),
{
    let ghost all = identity_texts(identities@);
    let ghost keep = |row: IdentityText| is_present(row);
    let ghost key = |row: IdentityText| key_of(row);
    let mut out: Vec<KeyInventoryRow> = Vec::new();
    let mut i: usize = 0;
    proof {
        list::lemma_filter_ends(all, keep);
        assert(key_texts(out@) =~= all.take(0).filter(keep).map_values(key));
    }
    while i < identities.len()
        invariant
            i <= identities@.len(),
            all == identity_texts(identities@),
            keep == (|row: IdentityText| is_present(row)),
            key == (|row: IdentityText| key_of(row)),
            key_texts(out@) == all.take(i as int).filter(keep).map_values(key),
        decreases identities@.len() - i,
    {
        let ghost before = all.take(i as int).filter(keep);
        let ghost rows = out@;
        proof {
            list::lemma_filter_next(all, keep, i as int);
            assert(all[i as int] == identities@[i as int]@);
        }
        let row = &identities[i];
        if !same_text(row.name.as_str(), "no active identity") {
            let added = KeyInventoryRow {
                identity: row.name.clone(),
                key_name: row.name.clone().concat("/KEY/%01"),
                algorithm: "Ed25519",
                storage: row.custodian,
                certificate_state: row.certificate,
            };
            assert(added@ =~= key(row@));
            let ghost shown = added@;
            out.push(added);
            proof {
                assert(key_texts(out@) =~= key_texts(rows).push(shown));
                assert(before.push(row@).map_values(key) =~= before.map_values(key).push(key(row@)));
            }
        }
        i = i + 1;
    }
    proof {
        list::lemma_filter_ends(all, keep);
    }
    out
}

pub open spec fn validation_views(posture: TrustPosture) -> Seq<TraceText> {
    seq![
        TraceText {
            packet_name: "/local/operator/status/%FE%01"@,
            signer: "/local/operator/dashboard/KEY/%01"@,
            outcome: if posture is Expired {
                "expired cert"@
            } else {
                "valid"@
            },
            rule: "/local/operator/<KEY> signs /local/operator/*"@,
        },
        TraceText {
            packet_name: "/localhost/nfd/faces/list"@,
            signer: "/local/operator/dashboard/KEY/%01"@,
            outcome: "valid management command"@,
            rule: "localhop command schema"@,
        },
    ]
}

fn validation_rows(posture: TrustPosture) -> (r: Vec<ValidationTraceRow>)
    ensures
        trace_texts(r@) == validation_views(posture),
{
    let r = vec![
        ValidationTraceRow {
            packet_name: "/local/operator/status/%FE%01".to_string(),
            signer: "/local/operator/dashboard/KEY/%01".to_string(),
            outcome: if posture == TrustPosture::Expired {
                "expired cert"
            } else {
                "valid"
            },
            rule: "/local/operator/<KEY> signs /local/operator/*",
        },
        ValidationTraceRow {
            packet_name: "/localhost/nfd/faces/list".to_string(),
            signer: "/local/operator/dashboard/KEY/%01".to_string(),
            outcome: "valid management command",
            rule: "localhop command schema",
        },
    ];
    assert(trace_texts(r@) =~= validation_views(posture));
    r
}

pub open spec fn review_views(posture: TrustPosture) -> Seq<ReviewText> {
    if posture is Weakened {
        seq![
            ReviewText {
                namespace: "/local/operator"@,
                change: "rule broadened"@,
                posture: TrustPosture::Weakened,
                operator_action: "approve or reject schema weakening"@,
            },
        ]
    } else {
        seq![
            ReviewText {
                namespace: "/local/operator"@,
                change: "no pending change"@,
                posture: TrustPosture::Valid,
                operator_action: "monitor"@,
            },
        ]
    }
}

fn schema_review_rows(posture: TrustPosture) -> (r: Vec<SchemaReviewRow>)
    ensures
        review_texts(r@) == review_views(posture),
{
    let weakened = posture == TrustPosture::Weakened;
    let r = vec![
        SchemaReviewRow {
            namespace: "/local/operator".to_string(),
            change: if weakened {
                "rule broadened"
            } else {
                "no pending change"
            },
            posture: if weakened {
                TrustPosture::Weakened
            } else {
                TrustPosture::Valid
            },
            operator_action: if weakened {
                "approve or reject schema weakening"
            } else {
                "monitor"
            },
        },
    ];
    assert(review_texts(r@) =~= review_views(posture));
    r
}

/// The DID of an identity.
pub open spec fn did_of(row: IdentityText) -> DidText {
    DidText {
        did: "did:ndn:"@ + text::replaced(row.name, '/', "%2F"@),
        source_name: row.name,
        verification_methods: if row.certificate == "missing"@ {
            0
        } else {
            1
        },
        services: 0,
        also_known_as: seq![],
    }
}

/// The row has an NDN name.
pub open spec fn is_named(row: IdentityText) -> bool {
    "/"@.is_prefix_of(row.name)
}

/// The DIDs of the identities that have an NDN name.
pub open spec fn dids_of(rows: Seq<IdentityText>) -> Seq<DidText> {
    rows.filter(|row: IdentityText| is_named(row)).map_values(|row: IdentityText| did_of(row))
}

fn did_rows_from_identities(identities: &Vec<IdentityRow>) -> (r: Vec<DidFrame>)
    ensures
        did_texts(r@) == dids_of(identity_texts(identities@)),
{
    let ghost all = identity_texts(identities@);
    let ghost keep = |row: IdentityText| is_named(row);
    let ghost did = |row: IdentityText| did_of(row);
    let mut out: Vec<DidFrame> = Vec::new();
    let mut i: usize = 0;
    proof {
        list::lemma_filter_ends(all, keep);
        assert(did_texts(out@) =~= all.take(0).filter(keep).map_values(did));
    }
    while i < identities.len()
        invariant
            i <= identities@.len(),
            all == identity_texts(identities@),
            keep == (|row: IdentityText| is_named(row)),
            did == (|row: IdentityText| did_of(row)),
            did_texts(out@) == all.take(i as int).filter(keep).map_values(did),
        decreases identities@.len() - i,
    {
        let ghost before = all.take(i as int).filter(keep);
        let ghost rows = out@;
        proof {
            list::lemma_filter_next(all, keep, i as int);
            assert(all[i as int] == identities@[i as int]@);
        }
        let row = &identities[i];
        if starts_with(row.name.as_str(), "/") {
            let added = DidFrame {
                did: "did:ndn:".to_string().concat(
                    replace_char(row.name.as_str(), '/', "%2F").as_str(),
                ),
                source_name: row.name.clone(),
                verification_methods: if same_text(row.certificate, "missing") {
                    0
                } else {
                    1
                },
                services: 0,
                also_known_as: Vec::new(),
            };
            assert(added@ =~= did(row@));
            let ghost shown = added@;
            out.push(added);
            proof {
                assert(did_texts(out@) =~= did_texts(rows).push(shown));
                assert(before.push(row@).map_values(did) =~= before.map_values(did).push(did(row@)));
            }
        }
        i = i + 1;
    }
    proof {
        list::lemma_filter_ends(all, keep);
    }
    out
}

// ---------------------------------------------------------------------------
// Flows
// ---------------------------------------------------------------------------

impl SafeBagImportState {
    pub open spec fn unsupported_text() -> SafeBagText {
        SafeBagText {
            available: false,
            summary: "SafeBag import is unavailable for this attach target."@,
            warnings: seq!["No dashboard-owned key storage is created."@],
        }
    }

    /// A preview, with one warning more in a browser and for an ephemeral identity.
    pub open spec fn preview_text(profile: ForwarderProfile, posture: TrustPosture) -> SafeBagText {
        SafeBagText {
            available: true,
            summary: "Ready to preview SafeBag metadata before handing it to the custodian."@,
            warnings: seq!["Private keys stay in reusable identity/custodian APIs."@] + (
            if in_browser(profile) {
                seq!["Browser import requires a custodian-backed storage decision."@]
            } else {
                seq![]
            }) + (if posture is Ephemeral {
                seq!["Current identity is ephemeral; adoption should confirm persistence."@]
            } else {
                seq![]
            }),
        }
    }

    pub fn unsupported() -> (r: Self)
        ensures
            r@ == SafeBagImportState::unsupported_text(),
    {
        let r = SafeBagImportState {
            available: false,
            summary: "SafeBag import is unavailable for this attach target.",
            warnings: vec!["No dashboard-owned key storage is created."],
        };
        assert(r@ =~= SafeBagImportState::unsupported_text());
        r
    }

    pub fn preview(profile: &ForwarderProfile, posture: TrustPosture) -> (r: Self)
        ensures
            r@ == SafeBagImportState::preview_text(*profile, posture),
    {
        let mut warnings: Vec<&'static str> = Vec::new();
        warnings.push("Private keys stay in reusable identity/custodian APIs.");
        if reached_by_browser(profile) {
            warnings.push("Browser import requires a custodian-backed storage decision.");
        }
        if posture == TrustPosture::Ephemeral {
            warnings.push("Current identity is ephemeral; adoption should confirm persistence.");
        }
        let r = SafeBagImportState {
            available: true,
            summary: "Ready to preview SafeBag metadata before handing it to the custodian.",
            warnings,
        };
        assert(r@ =~= SafeBagImportState::preview_text(*profile, posture));
        r
    }
}

impl ValidationFrame {
    /// The stand-in validation of a status packet.
    pub open spec fn fixture_text(posture: TrustPosture) -> FrameText {
        FrameText {
            target: "/local/operator/status/%FE%01"@,
            verdict: if posture is Expired || posture is Error {
                "invalid"@
            } else {
                "valid"@
            },
            failure: if posture is Expired {
                Some("certificate expired before the selected context could anchor it"@)
            } else {
                None
            },
            chain: seq![
                StepText {
                    name: "/local/operator/dashboard/KEY/%01"@,
                    signed_by: "/ndn/anchor/operator/KEY/%01"@,
                    anchor: false,
                },
                StepText {
                    name: "/ndn/anchor/operator/KEY/%01"@,
                    signed_by: "/ndn/anchor/operator/KEY/%01"@,
                    anchor: true,
                },
            ],
            rules: seq![
                RuleText {
                    data_pattern: "/local/operator/*"@,
                    key_pattern: "/local/operator/<KEY>"@,
                    matches: true,
                },
            ],
        }
    }

    pub fn fixture(posture: TrustPosture) -> (r: Self)
        ensures
            r@ == ValidationFrame::fixture_text(posture),
    {
        let r = ValidationFrame {
            target: "/local/operator/status/%FE%01".to_string(),
            verdict: if matches!(posture, TrustPosture::Expired | TrustPosture::Error) {
                "invalid"
            } else {
                "valid"
            },
            failure: if posture == TrustPosture::Expired {
                Some(
                    "certificate expired before the selected context could anchor it".to_string(),
                )
            } else {
                None
            },
            chain: vec![
                ValidationChainStep {
                    name: "/local/operator/dashboard/KEY/%01".to_string(),
                    signed_by: "/ndn/anchor/operator/KEY/%01".to_string(),
                    anchor: false,
                },
                ValidationChainStep {
                    name: "/ndn/anchor/operator/KEY/%01".to_string(),
                    signed_by: "/ndn/anchor/operator/KEY/%01".to_string(),
                    anchor: true,
                },
            ],
            rules: vec![
                ValidationRuleRow {
                    data_pattern: "/local/operator/*".to_string(),
                    key_pattern: "/local/operator/<KEY>".to_string(),
                    matches: true,
                },
            ],
        };
        assert(r@.chain =~= ValidationFrame::fixture_text(posture).chain);
        assert(r@.rules =~= ValidationFrame::fixture_text(posture).rules);
        r
    }
}

impl CustodyWarning {
    pub open spec fn unsupported_text(profile: ForwarderProfile) -> CustodyText {
        CustodyText {
            title: if profile.kind is Nfd || profile.kind is YaNfd {
                "Compatibility target"@
            } else {
                "Trust unavailable"@
            },
            detail: "This view does not create identity state for unsupported forwarders."@,
            owns_private_keys: false,
        }
    }

    /// Who keeps the keys, as far as it needs saying.
    pub open spec fn profile_text(profile: ForwarderProfile, posture: TrustPosture) -> CustodyText {
        CustodyText {
            title: if in_browser(profile) {
                "Browser custodian required"@
            } else if posture is Ephemeral {
                "Ephemeral identity"@
            } else {
                "Custodian boundary"@
            },
            detail: if in_browser(profile) {
                "Dashboard-next may request signing through browser-safe custodian APIs, but it must not own private key storage."@
            } else if posture is Ephemeral {
                "The active signer is temporary. Persist or adopt through reusable identity APIs before trusting long-lived operations."@
            } else {
                "Keys and trust policy remain in ndn-security, ndn-identity, ndn-cert, and custodian APIs."@
            },
            owns_private_keys: false,
        }
    }

    pub fn unsupported(profile: &ForwarderProfile) -> (r: Self)
        ensures
            r@ == CustodyWarning::unsupported_text(*profile),
    {
        CustodyWarning {
            title: if matches!(profile.kind, ForwarderKind::Nfd | ForwarderKind::YaNfd) {
                "Compatibility target"
            } else {
                "Trust unavailable"
            },
            detail: "This view does not create identity state for unsupported forwarders.",
            owns_private_keys: false,
        }
    }

    pub fn from_profile(profile: &ForwarderProfile, posture: TrustPosture) -> (r: Self)
        ensures
            r@ == CustodyWarning::profile_text(*profile, posture),
    {
        if reached_by_browser(profile) {
            CustodyWarning {
                title: "Browser custodian required",
                detail: "Dashboard-next may request signing through browser-safe custodian APIs, but it must not own private key storage.",
                owns_private_keys: false,
            }
        } else if posture == TrustPosture::Ephemeral {
            CustodyWarning {
                title: "Ephemeral identity",
                detail: "The active signer is temporary. Persist or adopt through reusable identity APIs before trusting long-lived operations.",
                owns_private_keys: false,
            }
        } else {
            CustodyWarning {
                title: "Custodian boundary",
                detail: "Keys and trust policy remain in ndn-security, ndn-identity, ndn-cert, and custodian APIs.",
                owns_private_keys: false,
            }
        }
    }
}

impl AdoptionFlowState {
    pub open spec fn unsupported_text() -> AdoptionText {
        AdoptionText {
            available: false,
            namespace_hint: "unsupported"@,
            fingerprint_hint: "none"@,
            requires_oob_confirmation: false,
            state: "unavailable"@,
            next_action: "attach to an ndn-rs TrustContext-capable target"@,
        }
    }

    pub open spec fn fixture_text(profile: ForwarderProfile, posture: TrustPosture) -> AdoptionText {
        AdoptionText {
            available: true,
            namespace_hint: if is_sandboxed(profile) {
                "/sandbox"@
            } else {
                "/local/operator"@
            },
            fingerprint_hint: if posture is NoIdentity {
                "awaiting bootstrap ticket"@
            } else {
                "sha256:7cc9...a14e"@
            },
            requires_oob_confirmation: true,
            state: if posture is NoIdentity {
                "ready to adopt"@
            } else {
                "pinned"@
            },
            next_action: "compare fingerprint out-of-band before adoption"@,
        }
    }

    pub fn unsupported() -> (r: Self)
        ensures
            r@ == AdoptionFlowState::unsupported_text(),
    {
        AdoptionFlowState {
            available: false,
            namespace_hint: "unsupported".to_string(),
            fingerprint_hint: "none".to_string(),
            requires_oob_confirmation: false,
            state: "unavailable",
            next_action: "attach to an ndn-rs TrustContext-capable target",
        }
    }

    pub fn fixture(profile: &ForwarderProfile, posture: TrustPosture) -> (r: Self)
        ensures
            r@ == AdoptionFlowState::fixture_text(*profile, posture),
    {
        let fresh = posture == TrustPosture::NoIdentity;
        AdoptionFlowState {
            available: true,
            namespace_hint: if profile.capabilities.trust_context == FeatureState::Degraded {
                "/sandbox".to_string()
            } else {
                "/local/operator".to_string()
            },
            fingerprint_hint: if fresh {
                "awaiting bootstrap ticket".to_string()
            } else {
                "sha256:7cc9...a14e".to_string()
            },
            requires_oob_confirmation: true,
            state: if fresh {
                "ready to adopt"
            } else {
                "pinned"
            },
            next_action: "compare fingerprint out-of-band before adoption",
        }
    }
}

impl EnrollmentFlowState {
    pub open spec fn unsupported_text() -> EnrollmentText {
        EnrollmentText {
            available: false,
            ca_endpoints: seq![],
            challenge_summary: "unavailable"@,
            subject_hint: "none"@,
            state: "unavailable"@,
            next_action: "attach to an ndn-rs or NDNCERT-capable target"@,
        }
    }

    pub open spec fn fixture_text(
        profile: ForwarderProfile,
        posture: TrustPosture,
    ) -> EnrollmentText {
        EnrollmentText {
            available: profile.capabilities.trust_context.available(),
            ca_endpoints: seq!["/local/operator/CA"@],
            challenge_summary: if in_browser(profile) {
                "browser-custodian + device-approval"@
            } else {
                "token AND device-approval"@
            },
            subject_hint: if posture is Ephemeral {
                "/local/operator/dashboard/ephemeral"@
            } else {
                "/local/operator/dashboard"@
            },
            state: if posture is Expired {
                "renewal needed"@
            } else {
                "ready"@
            },
            next_action: "run NDNCERT NEW/CHALLENGE through reusable enrollment APIs"@,
        }
    }

    pub fn unsupported() -> (r: Self)
        ensures
            r@ == EnrollmentFlowState::unsupported_text(),
    {
        let r = EnrollmentFlowState {
            available: false,
            ca_endpoints: Vec::new(),
            challenge_summary: "unavailable".to_string(),
            subject_hint: "none".to_string(),
            state: "unavailable",
            next_action: "attach to an ndn-rs or NDNCERT-capable target",
        };
        assert(r@ =~= EnrollmentFlowState::unsupported_text());
        r
    }

    pub fn fixture(profile: &ForwarderProfile, posture: TrustPosture) -> (r: Self)
        ensures
            r@ == EnrollmentFlowState::fixture_text(*profile, posture),
    {
        let r = EnrollmentFlowState {
            available: profile.capabilities.trust_context.is_available(),
            ca_endpoints: vec!["/local/operator/CA".to_string()],
            challenge_summary: if reached_by_browser(profile) {
                "browser-custodian + device-approval".to_string()
            } else {
                "token AND device-approval".to_string()
            },
            subject_hint: if posture == TrustPosture::Ephemeral {
                "/local/operator/dashboard/ephemeral".to_string()
            } else {
                "/local/operator/dashboard".to_string()
            },
            state: if posture == TrustPosture::Expired {
                "renewal needed"
            } else {
                "ready"
            },
            next_action: "run NDNCERT NEW/CHALLENGE through reusable enrollment APIs",
        };
        assert(r@ =~= EnrollmentFlowState::fixture_text(*profile, posture));
        r
    }
}

// ---------------------------------------------------------------------------
// The summary
// ---------------------------------------------------------------------------

impl TrustContextSummary {
    /// The summary of a target without a trust context: nothing to show.
    pub open spec fn is_unsupported(self, profile: ForwarderProfile, posture: TrustPosture) -> bool {
        &&& self.namespace@ == "unsupported"@
        &&& self.identity@ == "not available"@
        &&& self.anchors == 0
        &&& self.schema_rules == 0
        &&& self.pending_approvals == 0
        &&& self.posture == posture
        &&& self.contexts@.len() == 0
        &&& self.identities@.len() == 0
        &&& self.anchors_detail@.len() == 0
        &&& self.schema_summaries@.len() == 0
        &&& self.approvals@.len() == 0
        &&& self.safebag_import@ == SafeBagImportState::unsupported_text()
        &&& self.key_inventory@.len() == 0
        &&& self.validation_traces@.len() == 0
        &&& self.schema_reviews@.len() == 0
        &&& self.custody@ == CustodyWarning::unsupported_text(profile)
        &&& self.adoption@ == AdoptionFlowState::unsupported_text()
        &&& self.enrollment@ == EnrollmentFlowState::unsupported_text()
        &&& self.validation_frame is None
        &&& self.did_frames@.len() == 0
    }

    /// The stand-in summary of a target with a trust context.
    pub open spec fn is_stand_in(self, profile: ForwarderProfile, posture: TrustPosture) -> bool {
        let identities = identity_views(profile, posture);
        &&& self.namespace@ == "/local/operator"@
        &&& self.identity@ == shown_identity(identities, "not available"@)
        &&& self.anchors == anchor_views(profile).len()
        &&& self.schema_rules == rules_total(schema_views(profile, posture))
        &&& self.pending_approvals == approval_views(profile, posture).len()
        &&& self.posture == posture
        &&& context_texts(self.contexts@) == context_views(profile, posture)
        &&& identity_texts(self.identities@) == identities
        &&& anchor_texts(self.anchors_detail@) == anchor_views(profile)
        &&& schema_texts(self.schema_summaries@) == schema_views(profile, posture)
        &&& approval_texts(self.approvals@) == approval_views(profile, posture)
        &&& self.safebag_import@ == SafeBagImportState::preview_text(profile, posture)
        &&& key_texts(self.key_inventory@) == keys_of(identities)
        &&& trace_texts(self.validation_traces@) == validation_views(posture)
        &&& review_texts(self.schema_reviews@) == review_views(posture)
        &&& self.custody@ == CustodyWarning::profile_text(profile, posture)
        &&& self.adoption@ == AdoptionFlowState::fixture_text(profile, posture)
        &&& self.enrollment@ == EnrollmentFlowState::fixture_text(profile, posture)
        &&& self.validation_frame matches Some(frame) && frame@ == ValidationFrame::fixture_text(
            posture,
        )
        &&& did_texts(self.did_frames@) == dids_of(identities)
    }

    pub fn from_profile(profile: &ForwarderProfile, posture: TrustPosture) -> (r: Self)
        ensures
            if profile.capabilities.trust_context is Unsupported {
                r.is_unsupported(*profile, posture)
            } else {
                r.is_stand_in(*profile, posture)
            },
    {
        if profile.capabilities.trust_context == FeatureState::Unsupported {
            return TrustContextSummary {
                namespace: "unsupported".to_string(),
                identity: "not available".to_string(),
                anchors: 0,
                schema_rules: 0,
                pending_approvals: 0,
                posture,
                contexts: Vec::new(),
                identities: Vec::new(),
                anchors_detail: Vec::new(),
                schema_summaries: Vec::new(),
                approvals: Vec::new(),
                safebag_import: SafeBagImportState::unsupported(),
                key_inventory: Vec::new(),
                validation_traces: Vec::new(),
                schema_reviews: Vec::new(),
                custody: CustodyWarning::unsupported(profile),
                adoption: AdoptionFlowState::unsupported(),
                enrollment: EnrollmentFlowState::unsupported(),
                validation_frame: None,
                did_frames: Vec::new(),
            };
        }
        let contexts = context_rows(profile, posture);
        let identities = identity_rows(profile, posture);
        let anchors_detail = anchor_rows(profile);
        let schema_summaries = schema_rows(profile, posture);
        let approvals = approval_rows(profile, posture);
        let key_inventory = key_rows(&identities);
        let validation_traces = validation_rows(posture);
        let schema_reviews = schema_review_rows(posture);
        let did_frames = did_rows_from_identities(&identities);
        let namespace = pick_namespace(&contexts, "/local/operator");
        let identity = pick_identity(&identities, "not available");
        proof {
            reveal_with_fuel(rules_total, 3);
            assert(anchor_texts(anchors_detail@).len() == anchors_detail@.len());
            assert(approval_texts(approvals@).len() == approvals@.len());
        }
        TrustContextSummary {
            namespace,
            identity,
            anchors: anchors_detail.len(),
            schema_rules: count_rules(&schema_summaries),
            pending_approvals: approvals.len(),
            posture,
            contexts,
            identities,
            anchors_detail,
            schema_summaries,
            approvals,
            safebag_import: SafeBagImportState::preview(profile, posture),
            key_inventory,
            validation_traces,
            schema_reviews,
            custody: CustodyWarning::from_profile(profile, posture),
            adoption: AdoptionFlowState::fixture(profile, posture),
            enrollment: EnrollmentFlowState::fixture(profile, posture),
            validation_frame: Some(ValidationFrame::fixture(posture)),
            did_frames,
        }
    }

    /// The text of [`TrustContextSummary::action_label`].
    pub open spec fn action_text(self) -> Seq<char> {
        match self.posture {
            TrustPosture::Unsupported => "view compatibility notes"@,
            TrustPosture::NoIdentity => "adopt trust context"@,
            TrustPosture::Ephemeral => "persist identity"@,
            TrustPosture::Valid => "review approvals"@,
            TrustPosture::Expired => "renew certificate"@,
            TrustPosture::Weakened => "review schema change"@,
            TrustPosture::Error => "inspect trust error"@,
        }
    }

    pub fn action_label(&self) -> (r: &'static str)
        ensures
            r@ == self.action_text(),
    {
        match self.posture {
            TrustPosture::Unsupported => "view compatibility notes",
            TrustPosture::NoIdentity => "adopt trust context",
            TrustPosture::Ephemeral => "persist identity",
            TrustPosture::Valid => "review approvals",
            TrustPosture::Expired => "renew certificate",
            TrustPosture::Weakened => "review schema change",
            TrustPosture::Error => "inspect trust error",
        }
    }

    /// No key in the summary belongs to the dashboard.
    pub open spec fn keeps_keys_out(self) -> bool {
        &&& !self.custody.owns_private_keys
        &&& forall|i: int|
            0 <= i < self.identities@.len() ==> !(
            #[trigger] self.identities@[i]).private_key_owned_by_dashboard
    }
}

/// Whatever the profile and the posture, the dashboard owns no private key.
pub proof fn dashboard_owns_no_private_key(
    summary: TrustContextSummary,
    profile: ForwarderProfile,
    posture: TrustPosture,
)
    requires
        summary.is_unsupported(profile, posture) || summary.is_stand_in(profile, posture),
    ensures
        summary.keeps_keys_out(),
{
    if summary.is_stand_in(profile, posture) {
        let rows = identity_texts(summary.identities@);
        assert forall|i: int| 0 <= i < summary.identities@.len() implies !(
        #[trigger] summary.identities@[i]).private_key_owned_by_dashboard by {
            assert(rows[i] == summary.identities@[i]@);
        }
    }
    assert(!summary.custody@.owns_private_keys);
}

/// The counts that a summary shows are those of its rows.
pub proof fn summary_counts_its_rows(
    summary: TrustContextSummary,
    profile: ForwarderProfile,
    posture: TrustPosture,
)
    requires
        summary.is_unsupported(profile, posture) || summary.is_stand_in(profile, posture),
    ensures
        summary.anchors == summary.anchors_detail@.len(),
        summary.pending_approvals == summary.approvals@.len(),
        summary.schema_rules == rules_total(schema_texts(summary.schema_summaries@)),
{
    assert(anchor_texts(summary.anchors_detail@).len() == summary.anchors_detail@.len());
    assert(approval_texts(summary.approvals@).len() == summary.approvals@.len());
    assert(schema_texts(summary.schema_summaries@).len() == summary.schema_summaries@.len());
}

// ---------------------------------------------------------------------------
// More laws
// ---------------------------------------------------------------------------

/// The identity shown is the first active one; where none is active, the first
/// one; and the word where there is none at all.
pub proof fn first_active_identity_is_shown(rows: Seq<IdentityText>, word: Seq<char>) -> (at: int)
    ensures
        0 <= at <= rows.len(),
        forall|k: int| 0 <= k < at ==> !(#[trigger] rows[k]).active,
        at < rows.len() ==> rows[at].active && shown_identity(rows, word) == rows[at].name,
        at == rows.len() && at > 0 ==> shown_identity(rows, word) == rows[0].name,
        rows.len() == 0 ==> shown_identity(rows, word) == word,
    decreases rows.len(),
{
    if rows.len() == 0 || rows[0].active {
        0
    } else {
        let rest = rows.drop_first();
        let at = first_active_identity_is_shown(rest, word);
        assert forall|k: int| 0 <= k < at + 1 implies !(#[trigger] rows[k]).active by {
            if k > 0 {
                assert(rest[k - 1] == rows[k]);
            }
        }
        if at < rest.len() {
            assert(rest[at] == rows[at + 1]);
            lemma_first_active(rest, at);
        } else {
            lemma_none_active(rest);
        }
        at + 1
    }
}

/// The first active row gives its name.
proof fn lemma_first_active(rows: Seq<IdentityText>, at: int)
    requires
        0 <= at < rows.len(),
        rows[at].active,
        forall|k: int| 0 <= k < at ==> !(#[trigger] rows[k]).active,
    ensures
        first_active(rows) == Some(rows[at].name),
    decreases rows.len(),
{
    if at > 0 {
        let rest = rows.drop_first();
        assert(!rows[0].active);
        assert(rest[at - 1] == rows[at]);
        assert forall|k: int| 0 <= k < at - 1 implies !(#[trigger] rest[k]).active by {
            assert(rest[k] == rows[k + 1]);
        }
        lemma_first_active(rest, at - 1);
    }
}

/// Where no row is active, none gives its name.
proof fn lemma_none_active(rows: Seq<IdentityText>)
    requires
        forall|k: int| 0 <= k < rows.len() ==> !(#[trigger] rows[k]).active,
    ensures
        first_active(rows) is None,
    decreases rows.len(),
{
    if rows.len() > 0 {
        let rest = rows.drop_first();
        assert(!rows[0].active);
        assert forall|k: int| 0 <= k < rest.len() implies !(#[trigger] rest[k]).active by {
            assert(rest[k] == rows[k + 1]);
        }
        lemma_none_active(rest);
    }
}

/// The rules of several schemas are counted together.
pub proof fn rules_add_up(rows: Seq<SchemaText>, more: Seq<SchemaText>, row: SchemaText)
    ensures
        rules_total(Seq::empty()) == 0,
        rules_total(seq![row]) == row.rules,
        rules_total(rows + more) == rules_total(rows) + rules_total(more),
    decreases more.len(),
{
    assert(seq![row].drop_last() =~= Seq::empty());
    assert(rules_total(seq![row]) == rules_total(Seq::<SchemaText>::empty()) + row.rules as nat);
    if more.len() == 0 {
        assert(rows + more =~= rows);
    } else {
        let all = rows + more;
        assert(all.drop_last() =~= rows + more.drop_last());
        assert(all.last() == more.last());
        rules_add_up(rows, more.drop_last(), row);
    }
}

/// A summary without live evidence has two contexts, one of the operator, active
/// where trust is valid, and a read-only one of the forwarder, weakened where
/// the trust context is degraded.
pub proof fn stand_in_contexts_follow_the_posture(
    summary: TrustContextSummary,
    profile: ForwarderProfile,
    posture: TrustPosture,
)
    requires
        summary.is_stand_in(profile, posture),
    ensures
        summary.posture == posture,
        summary.namespace@ == "/local/operator"@,
        summary.contexts@.len() == 2,
        summary.contexts@[0].namespace@ == "/local/operator"@,
        summary.contexts@[0].posture == posture,
        summary.contexts@[0].state@ == (if posture == TrustPosture::Valid {
            "active"@
        } else {
            "needs review"@
        }),
        summary.contexts@[1].state@ == "read-only"@,
        summary.contexts@[1].posture == (match profile.capabilities.trust_context {
            FeatureState::Degraded => TrustPosture::Weakened,
            _ => posture,
        }),
        summary.contexts@[1].source@ == "forwarder management profile"@,
{
    let shown = context_texts(summary.contexts@);
    assert(shown.len() == 2);
    assert(shown[0] == summary.contexts@[0]@);
    assert(shown[1] == summary.contexts@[1]@);
}

/// A summary without live evidence names the dashboard's identity, active and
/// kept where the target is reached, beside a standby one; without an identity
/// it says that there is none, and lists no key.
pub proof fn stand_in_identities_follow_the_posture(
    summary: TrustContextSummary,
    profile: ForwarderProfile,
    posture: TrustPosture,
)
    requires
        summary.is_stand_in(profile, posture),
    ensures
        posture == TrustPosture::NoIdentity ==> {
            &&& summary.identity@ == "no active identity"@
            &&& summary.identities@.len() == 1
            &&& !summary.identities@[0].active
            &&& summary.identities@[0].certificate@ == "missing"@
            &&& summary.key_inventory@.len() == 0
        },
        posture != TrustPosture::NoIdentity ==> {
            &&& summary.identity@ == "/local/operator/dashboard"@
            &&& summary.identities@.len() == 2
            &&& summary.identities@[0].name@ == "/local/operator/dashboard"@
            &&& summary.identities@[0].active
            &&& summary.identities@[0].certificate@ == (if posture == TrustPosture::Expired {
                "expired"@
            } else {
                "valid"@
            })
            &&& summary.identities@[0].custodian@ == (match profile.attach_mode {
                AttachMode::LocalDesktop => "desktop PIB/custodian"@,
                AttachMode::Relay => "relay custodian"@,
                AttachMode::BrowserEngine => "browser custodian"@,
                AttachMode::RemoteWeb => "browser custodian"@,
            })
            &&& summary.identities@[1].name@ == "/local/operator/recovery"@
            &&& !summary.identities@[1].active
            &&& summary.identities@[1].certificate@ == "standby"@
        },
{
    let shown = identity_texts(summary.identities@);
    let views = identity_views(profile, posture);
    assert(shown.len() == summary.identities@.len());
    assert(shown[0] == summary.identities@[0]@);
    if posture is NoIdentity {
        lemma_none_active(views);
        reveal(Seq::filter);
        let present = |row: IdentityText| is_present(row);
        assert(views.len() == 1 && views.last() == views[0]);
        assert(!present(views[0]));
        assert(views.drop_last() =~= Seq::empty());
        assert(views.drop_last().filter(present) =~= Seq::empty());
        assert(views.filter(present) =~= Seq::empty());
        assert(keys_of(views).len() == 0);
        assert(key_texts(summary.key_inventory@).len() == summary.key_inventory@.len());
    } else {
        lemma_first_active(views, 0);
        assert(shown[1] == summary.identities@[1]@);
    }
}

/// What stands for live evidence follows the posture: an approval waits only
/// where trust is valid or weakened, a weakened schema is to be reviewed, an
/// expired certificate fails the validation, and a degraded trust context has
/// one sandbox anchor and fewer rules.
pub proof fn stand_in_details_follow_the_posture(
    summary: TrustContextSummary,
    profile: ForwarderProfile,
    posture: TrustPosture,
)
    requires
        summary.is_stand_in(profile, posture),
    ensures
        summary.pending_approvals == (if posture == TrustPosture::Valid || posture
            == TrustPosture::Weakened {
            1nat
        } else {
            0
        }),
        summary.approvals@.len() == summary.pending_approvals,
        profile.capabilities.trust_context is Degraded ==> summary.anchors == 1
            && summary.schema_rules == 5 && summary.anchors_detail@[0].state@ == "sandbox"@,
        !(profile.capabilities.trust_context is Degraded) ==> summary.anchors == 2
            && summary.schema_rules == 8 && summary.anchors_detail@[0].state@ == "trusted"@
            && summary.anchors_detail@[1].state@ == "trusted"@,
        summary.anchors_detail@.len() == summary.anchors,
        summary.schema_summaries@.len() == 2,
        summary.schema_summaries@[0].strictness@ == (if posture == TrustPosture::Weakened {
            "weakened"@
        } else {
            "strict"@
        }),
        summary.schema_reviews@.len() == 1,
        summary.schema_reviews@[0].posture == (if posture == TrustPosture::Weakened {
            TrustPosture::Weakened
        } else {
            TrustPosture::Valid
        }),
        summary.validation_traces@.len() == 2,
        summary.validation_traces@[0].outcome@ == (if posture == TrustPosture::Expired {
            "expired cert"@
        } else {
            "valid"@
        }),
        summary.validation_frame matches Some(frame) && {
            &&& frame.verdict@ == (if posture == TrustPosture::Expired || posture
                == TrustPosture::Error {
                "invalid"@
            } else {
                "valid"@
            })
            &&& frame.failure is Some <==> posture == TrustPosture::Expired
        },
        summary.enrollment.available == (profile.capabilities.trust_context is Enabled
            || profile.capabilities.trust_context is ReadOnly
            || profile.capabilities.trust_context is Degraded),
        summary.enrollment.state@ == (if posture == TrustPosture::Expired {
            "renewal needed"@
        } else {
            "ready"@
        }),
        summary.adoption.requires_oob_confirmation,
        summary.adoption.state@ == (if posture == TrustPosture::NoIdentity {
            "ready to adopt"@
        } else {
            "pinned"@
        }),
{
    let anchors = anchor_texts(summary.anchors_detail@);
    assert(anchors.len() == summary.anchors_detail@.len());
    assert(anchors[0] == summary.anchors_detail@[0]@);
    if !is_sandboxed(profile) {
        assert(anchors[1] == summary.anchors_detail@[1]@);
    }
    let schemas = schema_texts(summary.schema_summaries@);
    let views = schema_views(profile, posture);
    assert(schemas.len() == summary.schema_summaries@.len());
    assert(schemas[0] == summary.schema_summaries@[0]@);
    assert(views =~= seq![views[0]] + seq![views[1]]);
    rules_add_up(seq![views[0]], seq![views[1]], views[0]);
    rules_add_up(seq![views[0]], seq![views[1]], views[1]);
    assert(approval_texts(summary.approvals@).len() == summary.approvals@.len());
    let reviews = review_texts(summary.schema_reviews@);
    assert(reviews.len() == summary.schema_reviews@.len());
    assert(reviews[0] == summary.schema_reviews@[0]@);
    let traces = trace_texts(summary.validation_traces@);
    assert(traces.len() == summary.validation_traces@.len());
    assert(traces[0] == summary.validation_traces@[0]@);
    let frame = summary.validation_frame->0;
    assert(frame@.failure == text::opt_text(frame.failure));
}

/// Where the target has no trust context, nothing is shown and nothing is
/// offered.
pub proof fn no_trust_context_offers_nothing(
    summary: TrustContextSummary,
    profile: ForwarderProfile,
    posture: TrustPosture,
)
    requires
        summary.is_unsupported(profile, posture),
    ensures
        summary.anchors == 0 && summary.schema_rules == 0 && summary.pending_approvals == 0,
        summary.identities@.len() == 0 && summary.key_inventory@.len() == 0,
        !summary.safebag_import.available,
        !summary.adoption.available,
        !summary.enrollment.available && summary.enrollment.ca_endpoints@.len() == 0,
        summary.custody.title@ == (match profile.kind {
            ForwarderKind::Nfd => "Compatibility target"@,
            ForwarderKind::YaNfd => "Compatibility target"@,
            _ => "Trust unavailable"@,
        }),
{
    let endpoints = summary.enrollment.ca_endpoints@;
    assert(summary.enrollment@.ca_endpoints == text::string_texts(endpoints));
    assert(text::string_texts(endpoints).len() == endpoints.len());
}

/// A browser target is warned of before a temporary identity is, and its import
/// carries a warning of its own.
pub proof fn custody_is_told_by_target_and_posture(
    warning: CustodyWarning,
    import: SafeBagImportState,
    profile: ForwarderProfile,
    posture: TrustPosture,
)
    requires
        warning@ == CustodyWarning::profile_text(profile, posture),
        import@ == SafeBagImportState::preview_text(profile, posture),
    ensures
        warning.title@ == (match profile.attach_mode {
            AttachMode::BrowserEngine => "Browser custodian required"@,
            AttachMode::RemoteWeb => "Browser custodian required"@,
            _ => if posture == TrustPosture::Ephemeral {
                "Ephemeral identity"@
            } else {
                "Custodian boundary"@
            },
        }),
        import.available,
        import.warnings@.len() == 1 + (if profile.attach_mode == AttachMode::BrowserEngine
            || profile.attach_mode == AttachMode::RemoteWeb {
            1nat
        } else {
            0
        }) + (if posture == TrustPosture::Ephemeral {
            1nat
        } else {
            0
        }),
{
    assert(import@.warnings == text::texts(import.warnings@));
    assert(text::texts(import.warnings@).len() == import.warnings@.len());
}

/// Each posture asks for an action of its own.
pub proof fn actions_follow_the_posture(summary: TrustContextSummary)
    ensures
        summary.posture == TrustPosture::Valid ==> summary.action_text() == "review approvals"@,
        summary.posture == TrustPosture::Expired ==> summary.action_text()
            == "renew certificate"@,
        summary.posture == TrustPosture::NoIdentity ==> summary.action_text()
            == "adopt trust context"@,
        summary.posture == TrustPosture::Ephemeral ==> summary.action_text()
            == "persist identity"@,
        summary.posture == TrustPosture::Weakened ==> summary.action_text()
            == "review schema change"@,
        summary.posture == TrustPosture::Error ==> summary.action_text()
            == "inspect trust error"@,
        summary.posture == TrustPosture::Unsupported ==> summary.action_text()
            == "view compatibility notes"@,
{
}

/// Every identity but the placeholder has a key, named under it and kept where
/// the identity is kept, and every key is one of an identity.
pub proof fn keys_belong_to_identities(rows: Seq<IdentityText>, i: int, n: int) -> (places: (
    int,
    int,
))
    ensures
        0 <= i < rows.len() && rows[i].name != "no active identity"@ ==> {
            &&& 0 <= places.0 < keys_of(rows).len()
            &&& keys_of(rows)[places.0].identity == rows[i].name
            &&& keys_of(rows)[places.0].key_name == rows[i].name + "/KEY/%01"@
            &&& keys_of(rows)[places.0].storage == rows[i].custodian
            &&& keys_of(rows)[places.0].certificate_state == rows[i].certificate
        },
        0 <= n < keys_of(rows).len() ==> {
            &&& 0 <= places.1 < rows.len()
            &&& rows[places.1].name != "no active identity"@
            &&& keys_of(rows)[n].identity == rows[places.1].name
            &&& keys_of(rows)[n].storage == rows[places.1].custodian
        },
{
    broadcast use vstd::seq_lib::group_filter_ensures;
    broadcast use Seq::lemma_filter_contains_rev;

    let present = |row: IdentityText| is_present(row);
    let kept = rows.filter(present);
    let first = if 0 <= i < rows.len() && rows[i].name != "no active identity"@ {
        assert(present(rows[i]));
        assert(kept.contains(rows[i]));
        let k = choose|k: int| 0 <= k < kept.len() && kept[k] == rows[i];
        assert(keys_of(rows)[k] == key_of(kept[k]));
        k
    } else {
        0
    };
    let second = if 0 <= n < keys_of(rows).len() {
        assert(keys_of(rows)[n] == key_of(kept[n]));
        assert(present(kept[n]));
        assert(kept.contains(kept[n]));
        rows.lemma_filter_contains_rev(present, kept[n]);
        choose|k: int| 0 <= k < rows.len() && rows[k] == kept[n]
    } else {
        0
    };
    (first, second)
}

/// Every identity whose name is a name has a document, under that name with its
/// slashes escaped, with one method where a certificate is there.
pub proof fn documents_belong_to_identities(rows: Seq<IdentityText>, i: int) -> (k: int)
    requires
        0 <= i < rows.len(),
        rows[i].name.len() > 0 && rows[i].name[0] == '/',
    ensures
        0 <= k < dids_of(rows).len(),
        dids_of(rows)[k].source_name == rows[i].name,
        dids_of(rows)[k].did == "did:ndn:"@ + text::replaced(rows[i].name, '/', "%2F"@),
        dids_of(rows)[k].verification_methods == (if rows[i].certificate == "missing"@ {
            0nat
        } else {
            1
        }),
        dids_of(rows)[k].services == 0,
{
    broadcast use Seq::lemma_filter_contains_rev;

    reveal_strlit("/");
    let named = |row: IdentityText| is_named(row);
    let kept = rows.filter(named);
    assert(rows[i].name.take(1) =~= "/"@);
    assert("/"@ =~= rows[i].name.subrange(0, 1));
    assert(named(rows[i]));
    assert(kept.contains(rows[i]));
    let k = choose|k: int| 0 <= k < kept.len() && kept[k] == rows[i];
    assert(dids_of(rows)[k] == did_of(kept[k]));
    k
}

} // verus!
