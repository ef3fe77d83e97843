//! Trust as the stores of identities and trust contexts report it.
//!
//! The stores are read elsewhere; what they report arrives here as plain
//! snapshots and leaves as rows.

use vstd::prelude::*;

use crate::identity;
use crate::identity::{
    count_rules, pick_identity, pick_namespace, AdoptionFlowState, AnchorRow, ApprovalRow,
    CustodyWarning, DidFrame, EnrollmentFlowState, IdentityRow, KeyInventoryRow,
    SafeBagImportState, SchemaReviewRow, SchemaSummaryRow, TrustContextRow, TrustContextSummary,
    ValidationChainStep, ValidationFrame, ValidationRuleRow, ValidationTraceRow,
};
use crate::list;
use crate::model::{ForwarderProfile, TrustPosture};
use crate::number;
use crate::number::{decimal, decimal_size};
use crate::text;
use crate::text::{copy_texts, join};

verus! {

// ---------------------------------------------------------------------------
// Snapshots
// ---------------------------------------------------------------------------

/// What the DID document of a certificate holds.
#[derive(Debug, PartialEq, Eq)]
pub struct DidDocument {
    pub id: String,
    pub verification_methods: usize,
    pub services: usize,
    pub also_known_as: Vec<String>,
}

/// A certificate.
#[derive(Debug, PartialEq, Eq)]
pub struct CertificateSnapshot {
    pub name: String,
    pub fingerprint: String,
    pub valid_now: bool,
    pub did: DidDocument,
}

/// How a certificate can be had in a trust context.
#[derive(Debug, PartialEq, Eq)]
pub struct EnrollmentHint {
    pub challenges: Vec<String>,
    pub require_all: bool,
}

/// A signed trust context of a keyring.
#[derive(Debug, PartialEq, Eq)]
pub struct SecurityContext {
    pub namespace: String,
    pub enforces_hierarchy: bool,
    pub version: u64,
    pub schema_rules: usize,
    pub anchors: Vec<CertificateSnapshot>,
    pub ca_endpoints: Vec<String>,
    pub enrollment_hint: Option<EnrollmentHint>,
}

/// Who keeps the key of an identity.
#[derive(Clone, Copy, Debug, PartialEq, Eq, Structural)]
pub enum CustodianRef {
    InPage,
    BrowserExtension,
    OsKeyring,
    Fob,
    Remote,
    Tpm,
}

impl CustodianRef {
    /// The text of [`CustodianRef::label`].
    pub open spec fn label_text(self) -> Seq<char> {
        match self {
            Self::InPage => "in-page custodian"@,
            Self::BrowserExtension => "browser extension"@,
            Self::OsKeyring => "OS keyring"@,
            Self::Fob => "external fob"@,
            Self::Remote => "remote signer"@,
            Self::Tpm => "TPM"@,
        }
    }

    pub fn label(self) -> (r: &'static str)
        ensures
            r@ == self.label_text(),
    {
        match self {
            Self::InPage => "in-page custodian",
            Self::BrowserExtension => "browser extension",
            Self::OsKeyring => "OS keyring",
            Self::Fob => "external fob",
            Self::Remote => "remote signer",
            Self::Tpm => "TPM",
        }
    }
}

/// How long an identity lasts.
#[derive(Clone, Copy, Debug, PartialEq, Eq, Structural)]
pub enum IdentityLifetime {
    Persistent,
    Ephemeral,
    SessionScoped,
}

impl IdentityLifetime {
    /// The text of [`IdentityLifetime::label`].
    pub open spec fn label_text(self) -> Seq<char> {
        match self {
            Self::Persistent => "persistent"@,
            Self::Ephemeral => "ephemeral"@,
            Self::SessionScoped => "session"@,
        }
    }

    pub fn label(self) -> (r: &'static str)
        ensures
            r@ == self.label_text(),
    {
        match self {
            Self::Persistent => "persistent",
            Self::Ephemeral => "ephemeral",
            Self::SessionScoped => "session",
        }
    }
}

/// An identity of a trust context.
#[derive(Debug, PartialEq, Eq)]
pub struct IdentitySnapshot {
    pub name: String,
    pub key_name: String,
    pub custodian: CustodianRef,
    pub lifetime: IdentityLifetime,
    pub can_enroll: bool,
}

/// A trust context of an identity store.
#[derive(Debug, PartialEq, Eq)]
pub struct IdentityContext {
    pub name: String,
    pub identities: Vec<IdentitySnapshot>,
    pub anchors: Vec<CertificateSnapshot>,
    pub anchor_fingerprint: String,
    pub schema_rules: usize,
    pub ca_endpoints: Vec<String>,
}

/// A step of a certificate chain.
#[derive(Debug, PartialEq, Eq)]
pub struct ChainStep {
    pub name: String,
    pub signed_by: String,
    pub is_anchor: bool,
}

/// A schema rule that was applied.
#[derive(Debug, PartialEq, Eq)]
pub struct RuleMatch {
    pub data_pattern: String,
    pub key_pattern: String,
    pub matches: bool,
}

/// Why a chain does not hold.
#[derive(Debug, PartialEq, Eq)]
pub enum TraceFailure {
    CertNotFound { name: String },
    NoKeyLocator { name: String },
    AnchorNotTrusted { name: String },
    ChainTooDeep { limit: usize },
}

impl TraceFailure {
    /// The text of [`TraceFailure::label`].
    pub open spec fn label_text(self) -> Seq<char> {
        match self {
            TraceFailure::CertNotFound { name } => "cert not found: "@ + name@,
            TraceFailure::NoKeyLocator { name } => "no KeyLocator in chain at "@ + name@,
            TraceFailure::AnchorNotTrusted { name } => "anchor not trusted: "@ + name@,
            TraceFailure::ChainTooDeep { limit } => "chain too deep: limit "@ + number::decimal_text(
                limit as nat,
            ),
        }
    }

    pub fn label(&self) -> (r: String)
        ensures
            r@ == self.label_text(),
    {
        match self {
            TraceFailure::CertNotFound { name } => "cert not found: ".to_string().concat(
                name.as_str(),
            ),
            TraceFailure::NoKeyLocator { name } => {
                "no KeyLocator in chain at ".to_string().concat(name.as_str())
            },
            TraceFailure::AnchorNotTrusted { name } => "anchor not trusted: ".to_string().concat(
                name.as_str(),
            ),
            TraceFailure::ChainTooDeep { limit } => "chain too deep: limit ".to_string().concat(
                decimal_size(*limit).as_str(),
            ),
        }
    }
}

/// The trace of a validation.
#[derive(Debug, PartialEq, Eq)]
pub struct ChainTrace {
    pub target: String,
    pub failure: Option<TraceFailure>,
    pub steps: Vec<ChainStep>,
    pub rules_applied: Vec<RuleMatch>,
}

// ---------------------------------------------------------------------------
// Certificates
// ---------------------------------------------------------------------------

/// A fingerprint with the name of its hash.
pub open spec fn sha256_text(fingerprint: Seq<char>) -> Seq<char> {
    "sha256:"@ + fingerprint
}

/// The row of an anchor.
pub open spec fn anchor_of(cert: CertificateSnapshot) -> identity::AnchorText {
    identity::AnchorText {
        name: cert.name@,
        fingerprint: sha256_text(cert.fingerprint@),
        origin: "TrustContext anchor"@,
        state: if cert.valid_now {
            "trusted"@
        } else {
            "expired"@
        },
    }
}

/// The DID of a certificate.
pub open spec fn did_of(cert: CertificateSnapshot) -> identity::DidText {
    identity::DidText {
        did: cert.did.id@,
        source_name: cert.name@,
        verification_methods: cert.did.verification_methods,
        services: cert.did.services,
        also_known_as: text::string_texts(cert.did.also_known_as@),
    }
}

impl DidFrame {
    pub fn from_certificate(cert: &CertificateSnapshot) -> (r: Self)
        ensures
            r@ == did_of(*cert),
    {
        DidFrame {
            did: cert.did.id.clone(),
            source_name: cert.name.clone(),
            verification_methods: cert.did.verification_methods,
            services: cert.did.services,
            also_known_as: copy_texts(&cert.did.also_known_as),
        }
    }
}

/// The rows of the anchors of one context.
pub open spec fn anchors_of(certs: Seq<CertificateSnapshot>) -> Seq<identity::AnchorText> {
    certs.map_values(|cert: CertificateSnapshot| anchor_of(cert))
}

/// The DIDs of the anchors of one context.
pub open spec fn dids_of(certs: Seq<CertificateSnapshot>) -> Seq<identity::DidText> {
    certs.map_values(|cert: CertificateSnapshot| did_of(cert))
}

fn push_certificates(
    certs: &Vec<CertificateSnapshot>,
    anchors: &mut Vec<AnchorRow>,
    dids: &mut Vec<DidFrame>,
)
    ensures
        identity::anchor_texts(final(anchors)@) == identity::anchor_texts(old(anchors)@)
            + anchors_of(certs@),
        identity::did_texts(final(dids)@) == identity::did_texts(old(dids)@) + dids_of(certs@),
{
    let ghost anchors_before = identity::anchor_texts(anchors@);
    let ghost dids_before = identity::did_texts(dids@);
    let mut i: usize = 0;
    proof {
        assert(anchors_before + anchors_of(certs@.take(0)) =~= anchors_before);
        assert(dids_before + dids_of(certs@.take(0)) =~= dids_before);
    }
    while i < certs.len()
        invariant
            i <= certs@.len(),
            identity::anchor_texts(anchors@) == anchors_before + anchors_of(certs@.take(i as int)),
            identity::did_texts(dids@) == dids_before + dids_of(certs@.take(i as int)),
        decreases certs@.len() - i,
    {
        let cert = &certs[i];
        let ghost anchor_rows = anchors@;
        let ghost did_rows = dids@;
        let row = AnchorRow {
            name: cert.name.clone(),
            fingerprint: "sha256:".to_string().concat(cert.fingerprint.as_str()),
            origin: "TrustContext anchor",
            state: if cert.valid_now {
                "trusted"
            } else {
                "expired"
            },
        };
        let frame = DidFrame::from_certificate(cert);
        let ghost row_text = row@;
        let ghost frame_text = frame@;
        anchors.push(row);
        dids.push(frame);
        proof {
            assert(row_text == anchor_of(*cert));
            assert(identity::anchor_texts(anchors@) =~= identity::anchor_texts(anchor_rows).push(
                row_text,
            ));
            assert(identity::did_texts(dids@) =~= identity::did_texts(did_rows).push(frame_text));
            assert(anchors_of(certs@.take(i + 1)) =~= anchors_of(certs@.take(i as int)).push(
                anchor_of(*cert),
            ));
            assert(dids_of(certs@.take(i + 1)) =~= dids_of(certs@.take(i as int)).push(
                did_of(*cert),
            ));
        }
        i = i + 1;
    }
    assert(certs@.take(i as int) =~= certs@);
}

fn push_texts(parts: &Vec<String>, out: &mut Vec<String>)
    ensures
        text::string_texts(final(out)@) == text::string_texts(old(out)@) + text::string_texts(
            parts@,
        ),
{
    let ghost before = text::string_texts(out@);
    let mut i: usize = 0;
    assert(before + text::string_texts(parts@.take(0)) =~= before);
    while i < parts.len()
        invariant
            i <= parts@.len(),
            text::string_texts(out@) == before + text::string_texts(parts@.take(i as int)),
        decreases parts@.len() - i,
    {
        let ghost rows = out@;
        let part = parts[i].clone();
        out.push(part);
        proof {
            assert(text::string_texts(out@) =~= text::string_texts(rows).push(part@));
            assert(text::string_texts(parts@.take(i + 1)) =~= text::string_texts(
                parts@.take(i as int),
            ).push(part@));
        }
        i = i + 1;
    }
    assert(parts@.take(i as int) =~= parts@);
}

// ---------------------------------------------------------------------------
// Putting a summary together
// ---------------------------------------------------------------------------

/// The parts of a summary that a store reports.
#[derive(Debug, PartialEq, Eq)]
pub struct LiveTrustParts {
    pub contexts: Vec<TrustContextRow>,
    pub identities: Vec<IdentityRow>,
    pub anchors_detail: Vec<AnchorRow>,
    pub schema_summaries: Vec<SchemaSummaryRow>,
    pub approvals: Vec<ApprovalRow>,
    pub key_inventory: Vec<KeyInventoryRow>,
    pub validation_traces: Vec<ValidationTraceRow>,
    pub schema_reviews: Vec<SchemaReviewRow>,
    pub validation_frame: Option<ValidationFrame>,
    pub did_frames: Vec<DidFrame>,
    pub custody: CustodyWarning,
    pub adoption: AdoptionFlowState,
    pub enrollment: EnrollmentFlowState,
}

impl TrustContextSummary {
    /// The summary that parts amount to.
    pub open spec fn is_made_of(
        self,
        profile: ForwarderProfile,
        posture: TrustPosture,
        parts: LiveTrustParts,
    ) -> bool {
        &&& self.namespace@ == identity::shown_namespace(
            identity::context_texts(parts.contexts@),
            "/"@,
        )
        &&& self.identity@ == identity::shown_identity(
            identity::identity_texts(parts.identities@),
            "verification only"@,
        )
        &&& self.anchors == parts.anchors_detail@.len()
        &&& self.schema_rules == identity::rules_total(
            identity::schema_texts(parts.schema_summaries@),
        )
        &&& self.pending_approvals == parts.approvals@.len()
        &&& self.posture == posture
        &&& self.contexts == parts.contexts
        &&& self.identities == parts.identities
        &&& self.anchors_detail == parts.anchors_detail
        &&& self.schema_summaries == parts.schema_summaries
        &&& self.approvals == parts.approvals
        &&& self.safebag_import@ == SafeBagImportState::preview_text(profile, posture)
        &&& self.key_inventory == parts.key_inventory
        &&& self.validation_traces == parts.validation_traces
        &&& self.schema_reviews == parts.schema_reviews
        &&& self.custody == parts.custody
        &&& self.adoption == parts.adoption
        &&& self.enrollment == parts.enrollment
        &&& self.validation_frame == parts.validation_frame
        &&& self.did_frames == parts.did_frames
    }

    pub fn from_live_parts(
        profile: &ForwarderProfile,
        posture: TrustPosture,
        parts: LiveTrustParts,
    ) -> (r: Self)
        requires
            identity::rules_total(identity::schema_texts(parts.schema_summaries@)) <= usize::MAX,
        ensures
            r.is_made_of(*profile, posture, parts),
    {
        let namespace = pick_namespace(&parts.contexts, "/");
        let identity = pick_identity(&parts.identities, "verification only");
        TrustContextSummary {
            namespace,
            identity,
            anchors: parts.anchors_detail.len(),
            schema_rules: count_rules(&parts.schema_summaries),
            pending_approvals: parts.approvals.len(),
            posture,
            contexts: parts.contexts,
            identities: parts.identities,
            anchors_detail: parts.anchors_detail,
            schema_summaries: parts.schema_summaries,
            approvals: parts.approvals,
            safebag_import: SafeBagImportState::preview(profile, posture),
            key_inventory: parts.key_inventory,
            validation_traces: parts.validation_traces,
            schema_reviews: parts.schema_reviews,
            custody: parts.custody,
            adoption: parts.adoption,
            enrollment: parts.enrollment,
            validation_frame: parts.validation_frame,
            did_frames: parts.did_frames,
        }
    }
}

// ---------------------------------------------------------------------------
// A keyring
// ---------------------------------------------------------------------------

/// The row of a context of a keyring.
pub open spec fn security_context_view(
    context: SecurityContext,
    posture: TrustPosture,
) -> identity::ContextText {
    identity::ContextText {
        namespace: context.namespace@,
        state: if context.enforces_hierarchy {
            "active"@
        } else {
            "ambient"@
        },
        source: "ndn-security Keyring"@,
        posture,
    }
}

/// The row of the schema of a context of a keyring.
pub open spec fn security_schema_view(context: SecurityContext) -> identity::SchemaText {
    identity::SchemaText {
        namespace: context.namespace@,
        rules: context.schema_rules,
        strictness: if context.enforces_hierarchy {
            "hierarchical"@
        } else {
            "ambient"@
        },
        version: "v"@ + number::decimal_text(context.version as nat),
    }
}

/// The rows of the schemas of a keyring.
pub open spec fn security_schemas(contexts: Seq<SecurityContext>) -> Seq<identity::SchemaText> {
    contexts.map_values(|context: SecurityContext| security_schema_view(context))
}

/// The rows of the anchors of a keyring.
pub open spec fn security_anchors(contexts: Seq<SecurityContext>) -> Seq<identity::AnchorText> {
    contexts.map_values(|context: SecurityContext| anchors_of(context.anchors@)).flatten_alt()
}

/// The DIDs of the anchors of a keyring.
pub open spec fn security_dids(contexts: Seq<SecurityContext>) -> Seq<identity::DidText> {
    contexts.map_values(|context: SecurityContext| dids_of(context.anchors@)).flatten_alt()
}

/// The authorities of a keyring.
pub open spec fn security_endpoints(contexts: Seq<SecurityContext>) -> Seq<Seq<char>> {
    contexts.map_values(
        |context: SecurityContext| text::string_texts(context.ca_endpoints@),
    ).flatten_alt()
}

/// No context was adopted yet.
pub open spec fn nothing_adopted() -> identity::AdoptionText {
    identity::AdoptionText {
        available: true,
        namespace_hint: "/"@,
        fingerprint_hint: "awaiting bootstrap ticket"@,
        requires_oob_confirmation: true,
        state: "no adopted contexts"@,
        next_action: "scan or paste a bootstrap ticket"@,
    }
}

/// The adoption state of a keyring: that of its first context.
pub open spec fn security_adoption(contexts: Seq<SecurityContext>) -> identity::AdoptionText {
    if contexts.len() == 0 {
        nothing_adopted()
    } else {
        identity::AdoptionText {
            available: true,
            namespace_hint: contexts[0].namespace@,
            fingerprint_hint: if contexts[0].anchors@.len() > 0 {
                sha256_text(contexts[0].anchors@[0].fingerprint@)
            } else {
                "no anchor yet"@
            },
            requires_oob_confirmation: true,
            state: "adopted"@,
            next_action: "reject rollback and confirm any new anchor fingerprint"@,
        }
    }
}

/// The challenges of a hint, all of them or one of them.
pub open spec fn hint_text(hint: EnrollmentHint) -> Seq<char> {
    text::joined(
        text::string_texts(hint.challenges@),
        if hint.require_all {
            " AND "@
        } else {
            " OR "@
        },
    )
}

/// The first hint of a keyring.
pub open spec fn first_hint(contexts: Seq<SecurityContext>) -> Option<EnrollmentHint>
    decreases contexts.len(),
{
    if contexts.len() == 0 {
        None
    } else if contexts[0].enrollment_hint is Some {
        contexts[0].enrollment_hint
    } else {
        first_hint(contexts.drop_first())
    }
}

/// What a keyring advertises to enroll by.
pub open spec fn challenge_text(contexts: Seq<SecurityContext>) -> Seq<char> {
    match first_hint(contexts) {
        Some(hint) => if hint_text(hint).len() > 0 {
            hint_text(hint)
        } else {
            "not advertised"@
        },
        None => "not advertised"@,
    }
}

/// The enrollment state of a keyring.
pub open spec fn security_enrollment(contexts: Seq<SecurityContext>) -> identity::EnrollmentText {
    identity::EnrollmentText {
        available: security_endpoints(contexts).len() > 0,
        ca_endpoints: security_endpoints(contexts),
        challenge_summary: challenge_text(contexts),
        subject_hint: "select identity"@,
        state: "discovered"@,
        next_action: "start NDNCERT enrollment with a custodian signer"@,
    }
}

fn no_adopted_context() -> (r: AdoptionFlowState)
    ensures
        r@ == nothing_adopted(),
{
    AdoptionFlowState {
        available: true,
        namespace_hint: "/".to_string(),
        fingerprint_hint: "awaiting bootstrap ticket".to_string(),
        requires_oob_confirmation: true,
        state: "no adopted contexts",
        next_action: "scan or paste a bootstrap ticket",
    }
}

impl AdoptionFlowState {
    pub fn from_security_contexts(contexts: &Vec<SecurityContext>) -> (r: Self)
        ensures
            r@ == security_adoption(contexts@),
    {
        if contexts.len() == 0 {
            return no_adopted_context();
        }
        let context = &contexts[0];
        AdoptionFlowState {
            available: true,
            namespace_hint: context.namespace.clone(),
            fingerprint_hint: if context.anchors.len() > 0 {
                "sha256:".to_string().concat(context.anchors[0].fingerprint.as_str())
            } else {
                "no anchor yet".to_string()
            },
            requires_oob_confirmation: true,
            state: "adopted",
            next_action: "reject rollback and confirm any new anchor fingerprint",
        }
    }
}

fn advertised_challenges(contexts: &Vec<SecurityContext>) -> (r: String)
    ensures
        r@ == challenge_text(contexts@),
{
    let mut i: usize = 0;
    assert(contexts@.skip(0) =~= contexts@);
    while i < contexts.len()
        invariant
            i <= contexts@.len(),
            first_hint(contexts@) == first_hint(contexts@.skip(i as int)),
        decreases contexts@.len() - i,
    {
        assert(contexts@.skip(i as int)[0] == contexts@[i as int]);
        if let Some(hint) = &contexts[i].enrollment_hint {
            let joiner = if hint.require_all {
                " AND "
            } else {
                " OR "
            };
            let summary = join(&hint.challenges, joiner);
            if summary.as_str().is_empty() {
                return "not advertised".to_string();
            }
            return summary;
        }
        assert(contexts@.skip(i as int).drop_first() =~= contexts@.skip(i + 1));
        i = i + 1;
    }
    assert(contexts@.skip(i as int) =~= seq![]);
    "not advertised".to_string()
}

impl EnrollmentFlowState {
    pub fn from_security_contexts(contexts: &Vec<SecurityContext>) -> (r: Self)
        ensures
            r@ == security_enrollment(contexts@),
    {
        let ghost parts = |context: SecurityContext| text::string_texts(context.ca_endpoints@);
        let mut ca_endpoints: Vec<String> = Vec::new();
        let mut i: usize = 0;
        proof {
            list::lemma_flatten_ends(contexts@, parts);
            assert(text::string_texts(ca_endpoints@) =~= seq![]);
        }
        while i < contexts.len()
            invariant
                i <= contexts@.len(),
                parts == (|context: SecurityContext| text::string_texts(context.ca_endpoints@)),
                text::string_texts(ca_endpoints@) == contexts@.take(i as int).map_values(
                    parts,
                ).flatten_alt(),
            decreases contexts@.len() - i,
        {
            proof {
                list::lemma_flatten_next(contexts@, parts, i as int);
            }
            push_texts(&contexts[i].ca_endpoints, &mut ca_endpoints);
            i = i + 1;
        }
        proof {
            list::lemma_flatten_ends(contexts@, parts);
            assert(text::string_texts(ca_endpoints@).len() == ca_endpoints@.len());
        }
        EnrollmentFlowState {
            available: ca_endpoints.len() > 0,
            ca_endpoints,
            challenge_summary: advertised_challenges(contexts),
            subject_hint: "select identity".to_string(),
            state: "discovered",
            next_action: "start NDNCERT enrollment with a custodian signer",
        }
    }
}

impl TrustContextSummary {
    /// The summary of a keyring, which verifies and holds no identity.
    pub open spec fn is_of_keyring(
        self,
        profile: ForwarderProfile,
        posture: TrustPosture,
        contexts: Seq<SecurityContext>,
    ) -> bool {
        &&& self.namespace@ == (if contexts.len() > 0 {
            contexts[0].namespace@
        } else {
            "/"@
        })
        &&& self.identity@ == "verification only"@
        &&& self.anchors == security_anchors(contexts).len()
        &&& self.schema_rules == identity::rules_total(security_schemas(contexts))
        &&& self.pending_approvals == 0
        &&& self.posture == posture
        &&& identity::context_texts(self.contexts@) == contexts.map_values(
            |context: SecurityContext| security_context_view(context, posture),
        )
        &&& self.identities@.len() == 0
        &&& identity::anchor_texts(self.anchors_detail@) == security_anchors(contexts)
        &&& identity::schema_texts(self.schema_summaries@) == security_schemas(contexts)
        &&& self.approvals@.len() == 0
        &&& self.safebag_import@ == SafeBagImportState::preview_text(profile, posture)
        &&& self.key_inventory@.len() == 0
        &&& self.validation_traces@.len() == 0
        &&& self.schema_reviews@.len() == 0
        &&& self.custody@ == CustodyWarning::profile_text(profile, posture)
        &&& self.adoption@ == security_adoption(contexts)
        &&& self.enrollment@ == security_enrollment(contexts)
        &&& self.validation_frame is None
        &&& identity::did_texts(self.did_frames@) == security_dids(contexts)
    }

    pub fn from_security_keyring(
        profile: &ForwarderProfile,
        posture: TrustPosture,
        contexts: &Vec<SecurityContext>,
    ) -> (r: Self)
        requires
            identity::rules_total(security_schemas(contexts@)) <= usize::MAX,
        ensures
            r.is_of_keyring(*profile, posture, contexts@),
    {
        let ghost anchor_parts = |context: SecurityContext| anchors_of(context.anchors@);
        let ghost did_parts = |context: SecurityContext| dids_of(context.anchors@);
        let mut context_rows: Vec<TrustContextRow> = Vec::new();
        let mut schema_rows: Vec<SchemaSummaryRow> = Vec::new();
        let mut anchor_rows: Vec<AnchorRow> = Vec::new();
        let mut did_rows: Vec<DidFrame> = Vec::new();
        let mut i: usize = 0;
        proof {
            list::lemma_flatten_ends(contexts@, anchor_parts);
            list::lemma_flatten_ends(contexts@, did_parts);
            assert(identity::anchor_texts(anchor_rows@) =~= seq![]);
            assert(identity::did_texts(did_rows@) =~= seq![]);
        }
        while i < contexts.len()
            invariant
                i <= contexts@.len(),
                anchor_parts == (|context: SecurityContext| anchors_of(context.anchors@)),
                did_parts == (|context: SecurityContext| dids_of(context.anchors@)),
                context_rows@.len() == i,
                forall|k: int|
                    0 <= k < i ==> (#[trigger] context_rows@[k])@ == security_context_view(
                        contexts@[k],
                        posture,
                    ),
                schema_rows@.len() == i,
                forall|k: int|
                    0 <= k < i ==> (#[trigger] schema_rows@[k])@ == security_schema_view(
                        contexts@[k],
                    ),
                identity::anchor_texts(anchor_rows@) == contexts@.take(i as int).map_values(
                    anchor_parts,
                ).flatten_alt(),
                identity::did_texts(did_rows@) == contexts@.take(i as int).map_values(
                    did_parts,
                ).flatten_alt(),
            decreases contexts@.len() - i,
        {
            proof {
                list::lemma_flatten_next(contexts@, anchor_parts, i as int);
                list::lemma_flatten_next(contexts@, did_parts, i as int);
            }
            let context = &contexts[i];
            context_rows.push(
                TrustContextRow {
                    namespace: context.namespace.clone(),
                    state: if context.enforces_hierarchy {
                        "active"
                    } else {
                        "ambient"
                    },
                    source: "ndn-security Keyring",
                    posture,
                },
            );
            schema_rows.push(
                SchemaSummaryRow {
                    namespace: context.namespace.clone(),
                    rules: context.schema_rules,
                    strictness: if context.enforces_hierarchy {
                        "hierarchical"
                    } else {
                        "ambient"
                    },
                    version: "v".to_string().concat(decimal(context.version).as_str()),
                },
            );
            push_certificates(&context.anchors, &mut anchor_rows, &mut did_rows);
            i = i + 1;
        }
        proof {
            list::lemma_flatten_ends(contexts@, anchor_parts);
            list::lemma_flatten_ends(contexts@, did_parts);
            assert(identity::context_texts(context_rows@) =~= contexts@.map_values(
                |context: SecurityContext| security_context_view(context, posture),
            ));
            assert(identity::schema_texts(schema_rows@) =~= security_schemas(contexts@));
            assert(identity::anchor_texts(anchor_rows@).len() == anchor_rows@.len());
        }
        let r = TrustContextSummary::from_live_parts(
            profile,
            posture,
            LiveTrustParts {
                contexts: context_rows,
                identities: Vec::new(),
                anchors_detail: anchor_rows,
                schema_summaries: schema_rows,
                approvals: Vec::new(),
                key_inventory: Vec::new(),
                validation_traces: Vec::new(),
                schema_reviews: Vec::new(),
                validation_frame: None,
                did_frames: did_rows,
                adoption: AdoptionFlowState::from_security_contexts(contexts),
                enrollment: EnrollmentFlowState::from_security_contexts(contexts),
                custody: CustodyWarning::from_profile(profile, posture),
            },
        );
        assert(identity::identity_texts(r.identities@) =~= seq![]);
        r
    }
}

// ---------------------------------------------------------------------------
// An identity store
// ---------------------------------------------------------------------------

/// The row of a context of an identity store.
pub open spec fn identity_context_view(
    context: IdentityContext,
    posture: TrustPosture,
) -> identity::ContextText {
    identity::ContextText {
        namespace: context.name@,
        state: "active"@,
        source: "ndn-identity TrustContext"@,
        posture,
    }
}

/// The row of the schema of a context of an identity store.
pub open spec fn identity_schema_view(context: IdentityContext) -> identity::SchemaText {
    identity::SchemaText {
        namespace: context.name@,
        rules: context.schema_rules,
        strictness: "context"@,
        version: "live"@,
    }
}

/// The rows of the schemas of an identity store.
pub open spec fn identity_schemas(contexts: Seq<IdentityContext>) -> Seq<identity::SchemaText> {
    contexts.map_values(|context: IdentityContext| identity_schema_view(context))
}

/// The row of an identity of a store.
pub open spec fn stored_identity_view(stored: IdentitySnapshot) -> identity::IdentityText {
    identity::identity_view(
        stored.name@,
        stored.custodian.label_text(),
        stored.lifetime.label_text(),
        true,
    )
}

/// The row of the key of an identity of a store.
pub open spec fn stored_key_view(stored: IdentitySnapshot) -> identity::KeyText {
    identity::KeyText {
        identity: stored.name@,
        key_name: stored.key_name@,
        algorithm: "custodian"@,
        storage: stored.custodian.label_text(),
        certificate_state: stored.lifetime.label_text(),
    }
}

/// The rows of the identities of one context.
pub open spec fn stored_identities(stored: Seq<IdentitySnapshot>) -> Seq<identity::IdentityText> {
    stored.map_values(|one: IdentitySnapshot| stored_identity_view(one))
}

/// The rows of the keys of one context.
pub open spec fn stored_keys(stored: Seq<IdentitySnapshot>) -> Seq<identity::KeyText> {
    stored.map_values(|one: IdentitySnapshot| stored_key_view(one))
}

/// The rows of the identities of a store.
pub open spec fn all_identities(contexts: Seq<IdentityContext>) -> Seq<identity::IdentityText> {
    contexts.map_values(
        |context: IdentityContext| stored_identities(context.identities@),
    ).flatten_alt()
}

/// The rows of the keys of a store.
pub open spec fn all_keys(contexts: Seq<IdentityContext>) -> Seq<identity::KeyText> {
    contexts.map_values(|context: IdentityContext| stored_keys(context.identities@)).flatten_alt()
}

/// The rows of the anchors of a store.
pub open spec fn all_anchors(contexts: Seq<IdentityContext>) -> Seq<identity::AnchorText> {
    contexts.map_values(|context: IdentityContext| anchors_of(context.anchors@)).flatten_alt()
}

/// The DIDs of the anchors of a store.
pub open spec fn all_dids(contexts: Seq<IdentityContext>) -> Seq<identity::DidText> {
    contexts.map_values(|context: IdentityContext| dids_of(context.anchors@)).flatten_alt()
}

/// The authorities of a store.
pub open spec fn all_endpoints(contexts: Seq<IdentityContext>) -> Seq<Seq<char>> {
    contexts.map_values(
        |context: IdentityContext| text::string_texts(context.ca_endpoints@),
    ).flatten_alt()
}

/// The adoption state of a store: that of its first context.
pub open spec fn identity_adoption(contexts: Seq<IdentityContext>) -> identity::AdoptionText {
    if contexts.len() == 0 {
        nothing_adopted()
    } else {
        identity::AdoptionText {
            available: true,
            namespace_hint: contexts[0].name@,
            fingerprint_hint: sha256_text(contexts[0].anchor_fingerprint@),
            requires_oob_confirmation: true,
            state: "adopted"@,
            next_action: "compare fingerprint out-of-band before accepting updates"@,
        }
    }
}

/// The first identity of one context that can enroll.
pub open spec fn first_enrolling(stored: Seq<IdentitySnapshot>) -> Option<Seq<char>>
    decreases stored.len(),
{
    if stored.len() == 0 {
        None
    } else if stored[0].can_enroll {
        Some(stored[0].name@)
    } else {
        first_enrolling(stored.drop_first())
    }
}

/// The first identity of a store that can enroll.
pub open spec fn first_subject(contexts: Seq<IdentityContext>) -> Option<Seq<char>>
    decreases contexts.len(),
{
    if contexts.len() == 0 {
        None
    } else if first_enrolling(contexts[0].identities@) is Some {
        first_enrolling(contexts[0].identities@)
    } else {
        first_subject(contexts.drop_first())
    }
}

/// The enrollment state of a store.
pub open spec fn identity_enrollment(contexts: Seq<IdentityContext>) -> identity::EnrollmentText {
    identity::EnrollmentText {
        available: all_endpoints(contexts).len() > 0,
        ca_endpoints: all_endpoints(contexts),
        challenge_summary: "ask CA profile"@,
        subject_hint: match first_subject(contexts) {
            Some(name) => name,
            None => "select identity"@,
        },
        state: "discovered"@,
        next_action: "run NDNCERT NEW/CHALLENGE through ndn-cert"@,
    }
}

impl AdoptionFlowState {
    pub fn from_identity_contexts(contexts: &Vec<IdentityContext>) -> (r: Self)
        ensures
            r@ == identity_adoption(contexts@),
    {
        if contexts.len() == 0 {
            return no_adopted_context();
        }
        let context = &contexts[0];
        AdoptionFlowState {
            available: true,
            namespace_hint: context.name.clone(),
            fingerprint_hint: "sha256:".to_string().concat(context.anchor_fingerprint.as_str()),
            requires_oob_confirmation: true,
            state: "adopted",
            next_action: "compare fingerprint out-of-band before accepting updates",
        }
    }
}

fn enrolling_identity(stored: &Vec<IdentitySnapshot>) -> (r: Option<String>)
    ensures
        text::opt_text(r) == first_enrolling(stored@),
{
    let mut i: usize = 0;
    assert(stored@.skip(0) =~= stored@);
    while i < stored.len()
        invariant
            i <= stored@.len(),
            first_enrolling(stored@) == first_enrolling(stored@.skip(i as int)),
        decreases stored@.len() - i,
    {
        assert(stored@.skip(i as int)[0] == stored@[i as int]);
        if stored[i].can_enroll {
            return Some(stored[i].name.clone());
        }
        assert(stored@.skip(i as int).drop_first() =~= stored@.skip(i + 1));
        i = i + 1;
    }
    assert(stored@.skip(i as int) =~= seq![]);
    None
}

fn enrollment_subject(contexts: &Vec<IdentityContext>) -> (r: Option<String>)
    ensures
        text::opt_text(r) == first_subject(contexts@),
{
    let mut i: usize = 0;
    assert(contexts@.skip(0) =~= contexts@);
    while i < contexts.len()
        invariant
            i <= contexts@.len(),
            first_subject(contexts@) == first_subject(contexts@.skip(i as int)),
        decreases contexts@.len() - i,
    {
        assert(contexts@.skip(i as int)[0] == contexts@[i as int]);
        let found = enrolling_identity(&contexts[i].identities);
        if found.is_some() {
            return found;
        }
        assert(contexts@.skip(i as int).drop_first() =~= contexts@.skip(i + 1));
        i = i + 1;
    }
    assert(contexts@.skip(i as int) =~= seq![]);
    None
}

impl EnrollmentFlowState {
    pub fn from_identity_contexts(contexts: &Vec<IdentityContext>) -> (r: Self)
        ensures
            r@ == identity_enrollment(contexts@),
    {
        let ghost parts = |context: IdentityContext| text::string_texts(context.ca_endpoints@);
        let mut ca_endpoints: Vec<String> = Vec::new();
        let mut i: usize = 0;
        proof {
            list::lemma_flatten_ends(contexts@, parts);
            assert(text::string_texts(ca_endpoints@) =~= seq![]);
        }
        while i < contexts.len()
            invariant
                i <= contexts@.len(),
                parts == (|context: IdentityContext| text::string_texts(context.ca_endpoints@)),
                text::string_texts(ca_endpoints@) == contexts@.take(i as int).map_values(
                    parts,
                ).flatten_alt(),
            decreases contexts@.len() - i,
        {
            proof {
                list::lemma_flatten_next(contexts@, parts, i as int);
            }
            push_texts(&contexts[i].ca_endpoints, &mut ca_endpoints);
            i = i + 1;
        }
        proof {
            list::lemma_flatten_ends(contexts@, parts);
            assert(text::string_texts(ca_endpoints@).len() == ca_endpoints@.len());
        }
        let subject_hint = match enrollment_subject(contexts) {
            Some(name) => name,
            None => "select identity".to_string(),
        };
        EnrollmentFlowState {
            available: ca_endpoints.len() > 0,
            ca_endpoints,
            challenge_summary: "ask CA profile".to_string(),
            subject_hint,
            state: "discovered",
            next_action: "run NDNCERT NEW/CHALLENGE through ndn-cert",
        }
    }
}

fn push_identities(
    stored: &Vec<IdentitySnapshot>,
    identities: &mut Vec<IdentityRow>,
    keys: &mut Vec<KeyInventoryRow>,
)
    ensures
        identity::identity_texts(final(identities)@) == identity::identity_texts(old(identities)@)
            + stored_identities(stored@),
        identity::key_texts(final(keys)@) == identity::key_texts(old(keys)@) + stored_keys(stored@),
{
    let ghost identities_before = identity::identity_texts(identities@);
    let ghost keys_before = identity::key_texts(keys@);
    let mut i: usize = 0;
    proof {
        assert(identities_before + stored_identities(stored@.take(0)) =~= identities_before);
        assert(keys_before + stored_keys(stored@.take(0)) =~= keys_before);
    }
    while i < stored.len()
        invariant
            i <= stored@.len(),
            identity::identity_texts(identities@) == identities_before + stored_identities(
                stored@.take(i as int),
            ),
            identity::key_texts(keys@) == keys_before + stored_keys(stored@.take(i as int)),
        decreases stored@.len() - i,
    {
        let one = &stored[i];
        let ghost identity_rows = identities@;
        let ghost key_rows = keys@;
        let row = IdentityRow {
            name: one.name.clone(),
            custodian: one.custodian.label(),
            certificate: one.lifetime.label(),
            active: true,
            private_key_owned_by_dashboard: false,
        };
        let key = KeyInventoryRow {
            identity: one.name.clone(),
            key_name: one.key_name.clone(),
            algorithm: "custodian",
            storage: one.custodian.label(),
            certificate_state: one.lifetime.label(),
        };
        let ghost row_text = row@;
        let ghost key_text = key@;
        identities.push(row);
        keys.push(key);
        proof {
            assert(row_text == stored_identity_view(*one));
            assert(key_text == stored_key_view(*one));
            assert(identity::identity_texts(identities@) =~= identity::identity_texts(
                identity_rows,
            ).push(row_text));
            assert(identity::key_texts(keys@) =~= identity::key_texts(key_rows).push(key_text));
            assert(stored_identities(stored@.take(i + 1)) =~= stored_identities(
                stored@.take(i as int),
            ).push(stored_identity_view(*one)));
            assert(stored_keys(stored@.take(i + 1)) =~= stored_keys(stored@.take(i as int)).push(
                stored_key_view(*one),
            ));
        }
        i = i + 1;
    }
    assert(stored@.take(i as int) =~= stored@);
}

impl TrustContextSummary {
    /// The summary of an identity store.
    pub open spec fn is_of_store(
        self,
        profile: ForwarderProfile,
        posture: TrustPosture,
        contexts: Seq<IdentityContext>,
    ) -> bool {
        &&& self.namespace@ == (if contexts.len() > 0 {
            contexts[0].name@
        } else {
            "/"@
        })
        &&& self.identity@ == identity::shown_identity(
            all_identities(contexts),
            "verification only"@,
        )
        &&& self.anchors == all_anchors(contexts).len()
        &&& self.schema_rules == identity::rules_total(identity_schemas(contexts))
        &&& self.pending_approvals == 0
        &&& self.posture == posture
        &&& identity::context_texts(self.contexts@) == contexts.map_values(
            |context: IdentityContext| identity_context_view(context, posture),
        )
        &&& identity::identity_texts(self.identities@) == all_identities(contexts)
        &&& identity::anchor_texts(self.anchors_detail@) == all_anchors(contexts)
        &&& identity::schema_texts(self.schema_summaries@) == identity_schemas(contexts)
        &&& self.approvals@.len() == 0
        &&& self.safebag_import@ == SafeBagImportState::preview_text(profile, posture)
        &&& identity::key_texts(self.key_inventory@) == all_keys(contexts)
        &&& self.validation_traces@.len() == 0
        &&& self.schema_reviews@.len() == 0
        &&& self.custody@ == CustodyWarning::profile_text(profile, posture)
        &&& self.adoption@ == identity_adoption(contexts)
        &&& self.enrollment@ == identity_enrollment(contexts)
        &&& self.validation_frame is None
        &&& identity::did_texts(self.did_frames@) == all_dids(contexts)
    }

    pub fn from_identity_contexts(
        profile: &ForwarderProfile,
        posture: TrustPosture,
        contexts: &Vec<IdentityContext>,
    ) -> (r: Self)
        requires
            identity::rules_total(identity_schemas(contexts@)) <= usize::MAX,
        ensures
            r.is_of_store(*profile, posture, contexts@),
    {
        let ghost anchor_parts = |context: IdentityContext| anchors_of(context.anchors@);
        let ghost did_parts = |context: IdentityContext| dids_of(context.anchors@);
        let ghost identity_parts = |context: IdentityContext|
            stored_identities(context.identities@);
        let ghost key_parts = |context: IdentityContext| stored_keys(context.identities@);
        let mut context_rows: Vec<TrustContextRow> = Vec::new();
        let mut schema_rows: Vec<SchemaSummaryRow> = Vec::new();
        let mut anchor_rows: Vec<AnchorRow> = Vec::new();
        let mut did_rows: Vec<DidFrame> = Vec::new();
        let mut identity_rows: Vec<IdentityRow> = Vec::new();
        let mut key_rows: Vec<KeyInventoryRow> = Vec::new();
        let mut i: usize = 0;
        proof {
            list::lemma_flatten_ends(contexts@, anchor_parts);
            list::lemma_flatten_ends(contexts@, did_parts);
            list::lemma_flatten_ends(contexts@, identity_parts);
            list::lemma_flatten_ends(contexts@, key_parts);
            assert(identity::anchor_texts(anchor_rows@) =~= seq![]);
            assert(identity::did_texts(did_rows@) =~= seq![]);
            assert(identity::identity_texts(identity_rows@) =~= seq![]);
            assert(identity::key_texts(key_rows@) =~= seq![]);
        }
        while i < contexts.len()
            invariant
                i <= contexts@.len(),
                anchor_parts == (|context: IdentityContext| anchors_of(context.anchors@)),
                did_parts == (|context: IdentityContext| dids_of(context.anchors@)),
                identity_parts == (|context: IdentityContext|
                    stored_identities(context.identities@)),
                key_parts == (|context: IdentityContext| stored_keys(context.identities@)),
                context_rows@.len() == i,
                forall|k: int|
                    0 <= k < i ==> (#[trigger] context_rows@[k])@ == identity_context_view(
                        contexts@[k],
                        posture,
                    ),
                schema_rows@.len() == i,
                forall|k: int|
                    0 <= k < i ==> (#[trigger] schema_rows@[k])@ == identity_schema_view(
                        contexts@[k],
                    ),
                identity::anchor_texts(anchor_rows@) == contexts@.take(i as int).map_values(
                    anchor_parts,
                ).flatten_alt(),
                identity::did_texts(did_rows@) == contexts@.take(i as int).map_values(
                    did_parts,
                ).flatten_alt(),
                identity::identity_texts(identity_rows@) == contexts@.take(i as int).map_values(
                    identity_parts,
                ).flatten_alt(),
                identity::key_texts(key_rows@) == contexts@.take(i as int).map_values(
                    key_parts,
                ).flatten_alt(),
            decreases contexts@.len() - i,
        {
            proof {
                list::lemma_flatten_next(contexts@, anchor_parts, i as int);
                list::lemma_flatten_next(contexts@, did_parts, i as int);
                list::lemma_flatten_next(contexts@, identity_parts, i as int);
                list::lemma_flatten_next(contexts@, key_parts, i as int);
            }
            let context = &contexts[i];
            context_rows.push(
                TrustContextRow {
                    namespace: context.name.clone(),
                    state: "active",
                    source: "ndn-identity TrustContext",
                    posture,
                },
            );
            schema_rows.push(
                SchemaSummaryRow {
                    namespace: context.name.clone(),
                    rules: context.schema_rules,
                    strictness: "context",
                    version: "live".to_string(),
                },
            );
            push_certificates(&context.anchors, &mut anchor_rows, &mut did_rows);
            push_identities(&context.identities, &mut identity_rows, &mut key_rows);
            i = i + 1;
        }
        proof {
            list::lemma_flatten_ends(contexts@, anchor_parts);
            list::lemma_flatten_ends(contexts@, did_parts);
            list::lemma_flatten_ends(contexts@, identity_parts);
            list::lemma_flatten_ends(contexts@, key_parts);
            assert(identity::context_texts(context_rows@) =~= contexts@.map_values(
                |context: IdentityContext| identity_context_view(context, posture),
            ));
            assert(identity::schema_texts(schema_rows@) =~= identity_schemas(contexts@));
            assert(identity::anchor_texts(anchor_rows@).len() == anchor_rows@.len());
        }
        TrustContextSummary::from_live_parts(
            profile,
            posture,
            LiveTrustParts {
                contexts: context_rows,
                identities: identity_rows,
                anchors_detail: anchor_rows,
                schema_summaries: schema_rows,
                approvals: Vec::new(),
                key_inventory: key_rows,
                validation_traces: Vec::new(),
                schema_reviews: Vec::new(),
                validation_frame: None,
                did_frames: did_rows,
                adoption: AdoptionFlowState::from_identity_contexts(contexts),
                enrollment: EnrollmentFlowState::from_identity_contexts(contexts),
                custody: CustodyWarning::from_profile(profile, posture),
            },
        )
    }
}

proof fn lemma_flattened_rows_disown(rows: Seq<Seq<identity::IdentityText>>)
    requires
        forall|g: int, i: int|
            0 <= g < rows.len() && 0 <= i < rows[g].len() ==> !(
            #[trigger] rows[g][i]).private_key_owned_by_dashboard,
    ensures
        forall|i: int|
            0 <= i < rows.flatten_alt().len() ==> !(
            #[trigger] rows.flatten_alt()[i]).private_key_owned_by_dashboard,
    decreases rows.len(),
{
    if rows.len() > 0 {
        let shorter = rows.drop_last();
        assert forall|g: int, i: int| 0 <= g < shorter.len() && 0 <= i < shorter[g].len() implies !(
        #[trigger] shorter[g][i]).private_key_owned_by_dashboard by {
            assert(shorter[g] == rows[g]);
            assert(!rows[g][i].private_key_owned_by_dashboard);
        }
        lemma_flattened_rows_disown(shorter);
        let n = shorter.flatten_alt().len();
        assert forall|i: int| 0 <= i < rows.flatten_alt().len() implies !(
        #[trigger] rows.flatten_alt()[i]).private_key_owned_by_dashboard by {
            if i < n {
                assert(rows.flatten_alt()[i] == shorter.flatten_alt()[i]);
            } else {
                assert(rows.flatten_alt()[i] == rows[rows.len() - 1][i - n]);
            }
        }
    }
}

/// A summary of a keyring or of an identity store keeps private keys out of the
/// dashboard, whatever the store holds.
pub proof fn live_summary_owns_no_private_key(
    summary: TrustContextSummary,
    profile: ForwarderProfile,
    posture: TrustPosture,
    keyring: Seq<SecurityContext>,
    store: Seq<IdentityContext>,
)
    requires
        summary.is_of_keyring(profile, posture, keyring) || summary.is_of_store(
            profile,
            posture,
            store,
        ),
    ensures
        summary.keeps_keys_out(),
{
    assert(!summary.custody@.owns_private_keys);
    if summary.is_of_store(profile, posture, store) {
        let groups = store.map_values(
            |context: IdentityContext| stored_identities(context.identities@),
        );
        lemma_flattened_rows_disown(groups);
        let rows = identity::identity_texts(summary.identities@);
        assert forall|i: int| 0 <= i < summary.identities@.len() implies !(
        #[trigger] summary.identities@[i]).private_key_owned_by_dashboard by {
            assert(rows[i] == summary.identities@[i]@);
            assert(rows[i] == groups.flatten_alt()[i]);
        }
    }
}

// ---------------------------------------------------------------------------
// Validation traces
// ---------------------------------------------------------------------------

/// What the trace of a validation shows.
pub open spec fn trace_view(trace: ChainTrace) -> identity::FrameText {
    identity::FrameText {
        target: trace.target@,
        verdict: if trace.failure is None {
            "valid"@
        } else {
            "invalid"@
        },
        failure: match trace.failure {
            Some(failure) => Some(failure.label_text()),
            None => None,
        },
        chain: trace.steps@.map_values(
            |step: ChainStep|
                identity::StepText {
                    name: step.name@,
                    signed_by: step.signed_by@,
                    anchor: step.is_anchor,
                },
        ),
        rules: trace.rules_applied@.map_values(
            |rule: RuleMatch|
                identity::RuleText {
                    data_pattern: rule.data_pattern@,
                    key_pattern: rule.key_pattern@,
                    matches: rule.matches,
                },
        ),
    }
}

impl ValidationFrame {
    pub fn from_chain_trace(trace: &ChainTrace) -> (r: Self)
        ensures
            r@ == trace_view(*trace),
    {
        let mut chain: Vec<ValidationChainStep> = Vec::new();
        let mut i: usize = 0;
        while i < trace.steps.len()
            invariant
                i <= trace.steps@.len(),
                chain@.len() == i,
                forall|k: int|
                    0 <= k < i ==> (#[trigger] chain@[k])@ == (identity::StepText {
                        name: trace.steps@[k].name@,
                        signed_by: trace.steps@[k].signed_by@,
                        anchor: trace.steps@[k].is_anchor,
                    }),
            decreases trace.steps@.len() - i,
        {
            let step = &trace.steps[i];
            chain.push(
                ValidationChainStep {
                    name: step.name.clone(),
                    signed_by: step.signed_by.clone(),
                    anchor: step.is_anchor,
                },
            );
            i = i + 1;
        }
        let mut rules: Vec<ValidationRuleRow> = Vec::new();
        let mut i: usize = 0;
        while i < trace.rules_applied.len()
            invariant
                i <= trace.rules_applied@.len(),
                rules@.len() == i,
                forall|k: int|
                    0 <= k < i ==> (#[trigger] rules@[k])@ == (identity::RuleText {
                        data_pattern: trace.rules_applied@[k].data_pattern@,
                        key_pattern: trace.rules_applied@[k].key_pattern@,
                        matches: trace.rules_applied@[k].matches,
                    }),
            decreases trace.rules_applied@.len() - i,
        {
            let rule = &trace.rules_applied[i];
            rules.push(
                ValidationRuleRow {
                    data_pattern: rule.data_pattern.clone(),
                    key_pattern: rule.key_pattern.clone(),
                    matches: rule.matches,
                },
            );
            i = i + 1;
        }
        let r = ValidationFrame {
            target: trace.target.clone(),
            verdict: if trace.failure.is_none() {
                "valid"
            } else {
                "invalid"
            },
            failure: match &trace.failure {
                Some(failure) => Some(failure.label()),
                None => None,
            },
            chain,
            rules,
        };
        assert(r@.chain =~= trace_view(*trace).chain);
        assert(r@.rules =~= trace_view(*trace).rules);
        r
    }
}

/// A validation is shown as valid exactly where it names no failure.
pub proof fn verdict_follows_failure(trace: ChainTrace)
    ensures
        trace_view(trace).verdict == "valid"@ <==> trace_view(trace).failure is None,
{
    reveal_strlit("valid");
    reveal_strlit("invalid");
    assert("valid"@.len() == 5 && "invalid"@.len() == 7);
}

// ---------------------------------------------------------------------------
// Adoption and enrollment
// ---------------------------------------------------------------------------

#[derive(Debug, PartialEq, Eq)]
pub struct TofuAdoptionRequest {
    pub bootstrap_fragment: String,
    pub confirmed_oob: bool,
}

impl Clone for TofuAdoptionRequest {
    fn clone(&self) -> (r: Self)
        ensures
            r == *self,
    {
        TofuAdoptionRequest {
            bootstrap_fragment: self.bootstrap_fragment.clone(),
            confirmed_oob: self.confirmed_oob,
        }
    }
}

#[derive(Debug, PartialEq, Eq)]
pub struct TofuAdoptionReport {
    pub namespace: String,
    pub fingerprint: String,
    pub adopted: bool,
    pub message: String,
}

impl Clone for TofuAdoptionReport {
    fn clone(&self) -> (r: Self)
        ensures
            r == *self,
    {
        TofuAdoptionReport {
            namespace: self.namespace.clone(),
            fingerprint: self.fingerprint.clone(),
            adopted: self.adopted,
            message: self.message.clone(),
        }
    }
}

/// A bootstrap ticket: which namespace, and the fingerprint of its anchor.
#[derive(Debug, PartialEq, Eq)]
pub struct TicketSnapshot {
    pub namespace: String,
    pub anchor_fp_hex: String,
}

/// The fragment to read a ticket from, once the fingerprint was confirmed out of band.
pub fn begin_tofu_adoption(request: &TofuAdoptionRequest) -> (r: Result<String, String>)
    ensures
        r is Ok <==> request.confirmed_oob,
        r matches Ok(fragment) ==> fragment == request.bootstrap_fragment,
        r matches Err(error) ==> error@ == "out-of-band fingerprint confirmation is required"@,
{
    if !request.confirmed_oob {
        return Err("out-of-band fingerprint confirmation is required".to_string());
    }
    Ok(request.bootstrap_fragment.clone())
}

/// The error of a fragment that is no ticket.
pub fn invalid_ticket(error: &str) -> (r: String)
    ensures
        r@ == "invalid bootstrap ticket: "@ + error@,
{
    "invalid bootstrap ticket: ".to_string().concat(error)
}

/// The report of an adoption, or why it was refused.
pub fn finish_tofu_adoption(ticket: &TicketSnapshot, adopted: bool) -> (r: Result<
    TofuAdoptionReport,
    String,
>)
    ensures
        r is Ok <==> adopted,
        r matches Ok(report) ==> {
            &&& report.namespace == ticket.namespace
            &&& report.fingerprint@ == sha256_text(ticket.anchor_fp_hex@)
            &&& report.adopted
            &&& report.message@ == "TrustContext adopted after OOB fingerprint confirmation"@
        },
        r matches Err(error) ==> error@
            == "TOFU adoption rejected: namespace/fingerprint mismatch or anti-rollback refused it"@,
{
    if !adopted {
        return Err(
            "TOFU adoption rejected: namespace/fingerprint mismatch or anti-rollback refused it".to_string(),
        );
    }
    Ok(
        TofuAdoptionReport {
            namespace: ticket.namespace.clone(),
            fingerprint: "sha256:".to_string().concat(ticket.anchor_fp_hex.as_str()),
            adopted,
            message: "TrustContext adopted after OOB fingerprint confirmation".to_string(),
        },
    )
}

#[derive(Debug, PartialEq, Eq)]
pub struct EnrollmentExecutionReport {
    pub cert_name: String,
    pub fingerprint: String,
    pub state: &'static str,
}

impl Clone for EnrollmentExecutionReport {
    fn clone(&self) -> (r: Self)
        ensures
            r == *self,
    {
        EnrollmentExecutionReport {
            cert_name: self.cert_name.clone(),
            fingerprint: self.fingerprint.clone(),
            state: self.state,
        }
    }
}

/// What came of an enrollment.
#[derive(Debug, PartialEq, Eq)]
pub enum EnrollmentOutcome {
    /// The subject is no name.
    InvalidSubject(String),
    /// The authority refused, or did not answer.
    Refused(String),
    /// A certificate was issued.
    Issued { cert_name: String, fingerprint: String },
}

/// The report of an enrollment, or why there is none.
pub fn finish_enrollment(outcome: EnrollmentOutcome) -> (r: Result<
    EnrollmentExecutionReport,
    String,
>)
    ensures
        r is Ok <==> outcome is Issued,
        outcome matches EnrollmentOutcome::Issued { cert_name, fingerprint } ==> (
        r matches Ok(report) && report.cert_name == cert_name && report.fingerprint@ == sha256_text(
            fingerprint@,
        ) && report.state@ == "issued"@),
        outcome matches EnrollmentOutcome::InvalidSubject(error) ==> (r matches Err(message)
            && message@ == "invalid subject name: "@ + error@),
        outcome matches EnrollmentOutcome::Refused(error) ==> (r matches Err(message) && message@
            == "NDNCERT enrollment failed: "@ + error@),
{
    match outcome {
        EnrollmentOutcome::InvalidSubject(error) => Err(
            "invalid subject name: ".to_string().concat(error.as_str()),
        ),
        EnrollmentOutcome::Refused(error) => Err(
            "NDNCERT enrollment failed: ".to_string().concat(error.as_str()),
        ),
        EnrollmentOutcome::Issued { cert_name, fingerprint } => Ok(
            EnrollmentExecutionReport {
                cert_name,
                fingerprint: "sha256:".to_string().concat(fingerprint.as_str()),
                state: "issued",
            },
        ),
    }
}

// ---------------------------------------------------------------------------
// More laws
// ---------------------------------------------------------------------------

/// Every anchor of a keyring is listed, under its name and with its
/// fingerprint, trusted while its certificate is valid and expired afterwards,
/// and its document beside it.
pub proof fn anchors_of_a_keyring_are_listed(
    summary: TrustContextSummary,
    profile: ForwarderProfile,
    posture: TrustPosture,
    contexts: Seq<SecurityContext>,
    i: int,
    k: int,
) -> (places: (int, int))
    requires
        summary.is_of_keyring(profile, posture, contexts),
        0 <= i < contexts.len(),
        0 <= k < contexts[i].anchors@.len(),
    ensures
        0 <= places.0 < summary.anchors_detail@.len(),
        summary.anchors_detail@[places.0].name@ == contexts[i].anchors@[k].name@,
        summary.anchors_detail@[places.0].fingerprint@ == "sha256:"@
            + contexts[i].anchors@[k].fingerprint@,
        contexts[i].anchors@[k].valid_now ==> summary.anchors_detail@[places.0].state@
            == "trusted"@,
        !contexts[i].anchors@[k].valid_now ==> summary.anchors_detail@[places.0].state@
            == "expired"@,
        0 <= places.1 < summary.did_frames@.len(),
        summary.did_frames@[places.1].did@ == contexts[i].anchors@[k].did.id@,
        summary.did_frames@[places.1].source_name@ == contexts[i].anchors@[k].name@,
        summary.did_frames@[places.1].verification_methods
            == contexts[i].anchors@[k].did.verification_methods,
        summary.did_frames@[places.1].services == contexts[i].anchors@[k].did.services,
{
    let anchors = |context: SecurityContext| anchors_of(context.anchors@);
    let dids = |context: SecurityContext| dids_of(context.anchors@);
    list::lemma_flatten_holds(contexts, anchors, i, k);
    list::lemma_flatten_holds(contexts, dids, i, k);
    let cert = contexts[i].anchors@[k];
    assert(anchors(contexts[i])[k] == anchor_of(cert));
    assert(dids(contexts[i])[k] == did_of(cert));
    let rows = identity::anchor_texts(summary.anchors_detail@);
    let frames = identity::did_texts(summary.did_frames@);
    let n = choose|n: int| 0 <= n < rows.len() && rows[n] == anchor_of(cert);
    let m = choose|m: int| 0 <= m < frames.len() && frames[m] == did_of(cert);
    assert(rows[n] == summary.anchors_detail@[n]@);
    assert(frames[m] == summary.did_frames@[m]@);
    (n, m)
}

/// Every anchor row of a keyring comes from a certificate of one of its
/// contexts.
pub proof fn anchor_rows_come_from_a_keyring(
    summary: TrustContextSummary,
    profile: ForwarderProfile,
    posture: TrustPosture,
    contexts: Seq<SecurityContext>,
    n: int,
) -> (place: (int, int))
    requires
        summary.is_of_keyring(profile, posture, contexts),
        0 <= n < summary.anchors_detail@.len(),
    ensures
        0 <= place.0 < contexts.len(),
        0 <= place.1 < contexts[place.0].anchors@.len(),
        summary.anchors_detail@[n].name@ == contexts[place.0].anchors@[place.1].name@,
        summary.anchors_detail@[n].fingerprint@ == "sha256:"@
            + contexts[place.0].anchors@[place.1].fingerprint@,
        summary.anchors_detail@[n].state@ == (if contexts[place.0].anchors@[place.1].valid_now {
            "trusted"@
        } else {
            "expired"@
        }),
{
    let anchors = |context: SecurityContext| anchors_of(context.anchors@);
    let rows = identity::anchor_texts(summary.anchors_detail@);
    assert(rows[n] == summary.anchors_detail@[n]@);
    list::lemma_flatten_from(contexts, anchors, n)
}

/// Every context of a keyring is a row, active where it enforces its hierarchy,
/// and its schema another, with its rules and its version.
pub proof fn contexts_of_a_keyring_are_rows(
    summary: TrustContextSummary,
    profile: ForwarderProfile,
    posture: TrustPosture,
    contexts: Seq<SecurityContext>,
    i: int,
)
    requires
        summary.is_of_keyring(profile, posture, contexts),
        0 <= i < contexts.len(),
    ensures
        summary.contexts@.len() == contexts.len(),
        summary.contexts@[i].namespace@ == contexts[i].namespace@,
        summary.contexts@[i].posture == posture,
        summary.contexts@[i].state@ == (if contexts[i].enforces_hierarchy {
            "active"@
        } else {
            "ambient"@
        }),
        summary.schema_summaries@.len() == contexts.len(),
        summary.schema_summaries@[i].namespace@ == contexts[i].namespace@,
        summary.schema_summaries@[i].rules == contexts[i].schema_rules,
        summary.schema_summaries@[i].strictness@ == (if contexts[i].enforces_hierarchy {
            "hierarchical"@
        } else {
            "ambient"@
        }),
        summary.schema_summaries@[i].version@ == "v"@ + number::decimal_text(
            contexts[i].version as nat,
        ),
        summary.schema_rules >= contexts[i].schema_rules,
{
    let rows = identity::context_texts(summary.contexts@);
    assert(rows.len() == summary.contexts@.len());
    assert(rows[i] == summary.contexts@[i]@);
    let schemas = identity::schema_texts(summary.schema_summaries@);
    assert(schemas.len() == summary.schema_summaries@.len());
    assert(schemas[i] == summary.schema_summaries@[i]@);
    lemma_rules_bound(schemas, i);
}

/// No schema has more rules than all of them together.
proof fn lemma_rules_bound(rows: Seq<identity::SchemaText>, i: int)
    requires
        0 <= i < rows.len(),
    ensures
        identity::rules_total(rows) >= rows[i].rules,
    decreases rows.len(),
{
    if i < rows.len() - 1 {
        assert(rows.drop_last()[i] == rows[i]);
        lemma_rules_bound(rows.drop_last(), i);
    }
}

/// Every authority of a keyring is offered, and enrolment is available exactly
/// where there is one.
pub proof fn authorities_of_a_keyring_are_offered(
    flow: EnrollmentFlowState,
    contexts: Seq<SecurityContext>,
    i: int,
    k: int,
) -> (place: (int, int))
    requires
        flow@ == security_enrollment(contexts),
    ensures
        0 <= i < contexts.len() && 0 <= k < contexts[i].ca_endpoints@.len() ==> flow.available
            && text::string_texts(flow.ca_endpoints@).contains(contexts[i].ca_endpoints@[k]@),
        flow.available ==> 0 <= place.0 < contexts.len() && 0 <= place.1
            < contexts[place.0].ca_endpoints@.len() && flow.ca_endpoints@[0]@
            == contexts[place.0].ca_endpoints@[place.1]@,
{
    let ends = |context: SecurityContext| text::string_texts(context.ca_endpoints@);
    let all = text::string_texts(flow.ca_endpoints@);
    assert(all == security_endpoints(contexts));
    if 0 <= i < contexts.len() && 0 <= k < contexts[i].ca_endpoints@.len() {
        list::lemma_flatten_holds(contexts, ends, i, k);
        assert(ends(contexts[i])[k] == contexts[i].ca_endpoints@[k]@);
    }
    if all.len() > 0 {
        let place = list::lemma_flatten_from(contexts, ends, 0);
        assert(all[0] == flow.ca_endpoints@[0]@);
        place
    } else {
        (0, 0)
    }
}

/// The challenges told are those of the first context that has a hint: joined
/// by `AND` where all are required, else by `OR`.
pub proof fn challenges_come_from_the_first_hint(
    flow: EnrollmentFlowState,
    contexts: Seq<SecurityContext>,
) -> (at: int)
    requires
        flow@ == security_enrollment(contexts),
    ensures
        0 <= at <= contexts.len(),
        forall|j: int| 0 <= j < at ==> (#[trigger] contexts[j]).enrollment_hint is None,
        at == contexts.len() ==> flow.challenge_summary@ == "not advertised"@,
        at < contexts.len() ==> contexts[at].enrollment_hint is Some,
        at < contexts.len() ==> ({
            let hint = contexts[at].enrollment_hint->0;
            let told = text::joined(
                text::string_texts(hint.challenges@),
                if hint.require_all {
                    " AND "@
                } else {
                    " OR "@
                },
            );
            flow.challenge_summary@ == if told.len() > 0 {
                told
            } else {
                "not advertised"@
            }
        }),
{
    lemma_first_hint(contexts)
}

/// The first hint is that of the first context that has one.
proof fn lemma_first_hint(contexts: Seq<SecurityContext>) -> (at: int)
    ensures
        0 <= at <= contexts.len(),
        forall|j: int| 0 <= j < at ==> (#[trigger] contexts[j]).enrollment_hint is None,
        at == contexts.len() ==> first_hint(contexts) is None,
        at < contexts.len() ==> contexts[at].enrollment_hint is Some && first_hint(contexts)
            == contexts[at].enrollment_hint,
    decreases contexts.len(),
{
    if contexts.len() == 0 || contexts[0].enrollment_hint is Some {
        0
    } else {
        let rest = contexts.drop_first();
        let at = lemma_first_hint(rest);
        assert forall|j: int| 0 <= j < at + 1 implies (
        #[trigger] contexts[j]).enrollment_hint is None by {
            if j > 0 {
                assert(rest[j - 1] == contexts[j]);
            }
        }
        at + 1
    }
}

/// The first context tells what was adopted, by its first anchor; without one
/// a ticket is awaited. The fingerprint is always to be confirmed.
pub proof fn adoption_is_told_by_the_first_context(
    flow: AdoptionFlowState,
    contexts: Seq<SecurityContext>,
)
    requires
        flow@ == security_adoption(contexts),
    ensures
        flow.available && flow.requires_oob_confirmation,
        contexts.len() == 0 ==> flow.namespace_hint@ == "/"@ && flow.state@
            == "no adopted contexts"@ && flow.fingerprint_hint@ == "awaiting bootstrap ticket"@,
        contexts.len() > 0 ==> flow.namespace_hint@ == contexts[0].namespace@ && flow.state@
            == "adopted"@,
        contexts.len() > 0 && contexts[0].anchors@.len() > 0 ==> flow.fingerprint_hint@
            == "sha256:"@ + contexts[0].anchors@[0].fingerprint@,
        contexts.len() > 0 && contexts[0].anchors@.len() == 0 ==> flow.fingerprint_hint@
            == "no anchor yet"@,
{
}

/// Every stored identity is listed, active and kept by its own custodian, with
/// its own key beside it.
pub proof fn stored_identities_are_listed(
    summary: TrustContextSummary,
    profile: ForwarderProfile,
    posture: TrustPosture,
    contexts: Seq<IdentityContext>,
    i: int,
    k: int,
) -> (places: (int, int))
    requires
        summary.is_of_store(profile, posture, contexts),
        0 <= i < contexts.len(),
        0 <= k < contexts[i].identities@.len(),
    ensures
        0 <= places.0 < summary.identities@.len(),
        summary.identities@[places.0].name@ == contexts[i].identities@[k].name@,
        summary.identities@[places.0].active,
        !summary.identities@[places.0].private_key_owned_by_dashboard,
        summary.identities@[places.0].custodian@ == (match contexts[i].identities@[k].custodian {
            CustodianRef::InPage => "in-page custodian"@,
            CustodianRef::BrowserExtension => "browser extension"@,
            CustodianRef::OsKeyring => "OS keyring"@,
            CustodianRef::Fob => "external fob"@,
            CustodianRef::Remote => "remote signer"@,
            CustodianRef::Tpm => "TPM"@,
        }),
        summary.identities@[places.0].certificate@ == (match contexts[i].identities@[k].lifetime {
            IdentityLifetime::Persistent => "persistent"@,
            IdentityLifetime::Ephemeral => "ephemeral"@,
            IdentityLifetime::SessionScoped => "session"@,
        }),
        0 <= places.1 < summary.key_inventory@.len(),
        summary.key_inventory@[places.1].identity@ == contexts[i].identities@[k].name@,
        summary.key_inventory@[places.1].key_name@ == contexts[i].identities@[k].key_name@,
        summary.key_inventory@[places.1].storage@ == summary.identities@[places.0].custodian@,
        summary.key_inventory@[places.1].certificate_state@
            == summary.identities@[places.0].certificate@,
{
    let names = |context: IdentityContext| stored_identities(context.identities@);
    let keys = |context: IdentityContext| stored_keys(context.identities@);
    list::lemma_flatten_holds(contexts, names, i, k);
    list::lemma_flatten_holds(contexts, keys, i, k);
    let stored = contexts[i].identities@[k];
    assert(names(contexts[i])[k] == stored_identity_view(stored));
    assert(keys(contexts[i])[k] == stored_key_view(stored));
    let rows = identity::identity_texts(summary.identities@);
    let held = identity::key_texts(summary.key_inventory@);
    let n = choose|n: int| 0 <= n < rows.len() && rows[n] == stored_identity_view(stored);
    let m = choose|m: int| 0 <= m < held.len() && held[m] == stored_key_view(stored);
    assert(rows[n] == summary.identities@[n]@);
    assert(held[m] == summary.key_inventory@[m]@);
    (n, m)
}

/// Every identity row of a store is an identity of one of its contexts, and the
/// first of them is the identity shown.
pub proof fn identity_rows_come_from_the_store(
    summary: TrustContextSummary,
    profile: ForwarderProfile,
    posture: TrustPosture,
    contexts: Seq<IdentityContext>,
    n: int,
) -> (place: (int, int))
    requires
        summary.is_of_store(profile, posture, contexts),
        0 <= n < summary.identities@.len(),
    ensures
        0 <= place.0 < contexts.len(),
        0 <= place.1 < contexts[place.0].identities@.len(),
        summary.identities@[n].name@ == contexts[place.0].identities@[place.1].name@,
        summary.identity@ == summary.identities@[0].name@,
{
    let names = |context: IdentityContext| stored_identities(context.identities@);
    let rows = identity::identity_texts(summary.identities@);
    assert(rows[n] == summary.identities@[n]@);
    assert(rows[0] == summary.identities@[0]@);
    let first = list::lemma_flatten_from(contexts, names, 0);
    assert(rows[0].active);
    let at = identity::first_active_identity_is_shown(rows, "verification only"@);
    assert(at == 0);
    list::lemma_flatten_from(contexts, names, n)
}

/// Every anchor of a store is listed, trusted while its certificate is valid
/// and expired afterwards, and each context is a row with its own rules.
pub proof fn anchors_of_a_store_are_listed(
    summary: TrustContextSummary,
    profile: ForwarderProfile,
    posture: TrustPosture,
    contexts: Seq<IdentityContext>,
    i: int,
    k: int,
) -> (n: int)
    requires
        summary.is_of_store(profile, posture, contexts),
        0 <= i < contexts.len(),
        0 <= k < contexts[i].anchors@.len(),
    ensures
        0 <= n < summary.anchors_detail@.len(),
        summary.anchors_detail@[n].name@ == contexts[i].anchors@[k].name@,
        summary.anchors_detail@[n].fingerprint@ == "sha256:"@
            + contexts[i].anchors@[k].fingerprint@,
        summary.anchors_detail@[n].state@ == (if contexts[i].anchors@[k].valid_now {
            "trusted"@
        } else {
            "expired"@
        }),
        summary.contexts@.len() == contexts.len(),
        summary.contexts@[i].namespace@ == contexts[i].name@,
        summary.contexts@[i].state@ == "active"@,
        summary.contexts@[i].posture == posture,
        summary.schema_summaries@.len() == contexts.len(),
        summary.schema_summaries@[i].namespace@ == contexts[i].name@,
        summary.schema_summaries@[i].rules == contexts[i].schema_rules,
{
    let anchors = |context: IdentityContext| anchors_of(context.anchors@);
    list::lemma_flatten_holds(contexts, anchors, i, k);
    let cert = contexts[i].anchors@[k];
    assert(anchors(contexts[i])[k] == anchor_of(cert));
    let rows = identity::anchor_texts(summary.anchors_detail@);
    let n = choose|n: int| 0 <= n < rows.len() && rows[n] == anchor_of(cert);
    assert(rows[n] == summary.anchors_detail@[n]@);
    let shown = identity::context_texts(summary.contexts@);
    assert(shown.len() == summary.contexts@.len());
    assert(shown[i] == summary.contexts@[i]@);
    let schemas = identity::schema_texts(summary.schema_summaries@);
    assert(schemas.len() == summary.schema_summaries@.len());
    assert(schemas[i] == summary.schema_summaries@[i]@);
    n
}

/// The subject proposed is the first identity that can be enrolled, looked for
/// context by context; enrolment is available exactly where there is an
/// authority.
pub proof fn first_enrolling_identity_is_proposed(
    flow: EnrollmentFlowState,
    contexts: Seq<IdentityContext>,
    i: int,
    k: int,
) -> (place: (int, int))
    requires
        flow@ == identity_enrollment(contexts),
        0 <= i < contexts.len(),
        0 <= k < contexts[i].identities@.len(),
        contexts[i].identities@[k].can_enroll,
    ensures
        0 <= place.0 <= i,
        0 <= place.1 < contexts[place.0].identities@.len(),
        place.0 == i ==> place.1 <= k,
        contexts[place.0].identities@[place.1].can_enroll,
        flow.subject_hint@ == contexts[place.0].identities@[place.1].name@,
{
    lemma_first_subject(contexts, i, k)
}

/// The first identity of a context that can be enrolled.
proof fn lemma_first_enrolling(stored: Seq<IdentitySnapshot>, k: int) -> (at: int)
    requires
        0 <= k < stored.len(),
        stored[k].can_enroll,
    ensures
        0 <= at <= k,
        stored[at].can_enroll,
        first_enrolling(stored) == Some(stored[at].name@),
    decreases stored.len(),
{
    if stored[0].can_enroll {
        0
    } else {
        let rest = stored.drop_first();
        assert(rest[k - 1] == stored[k]);
        let at = lemma_first_enrolling(rest, k - 1);
        assert(rest[at] == stored[at + 1]);
        at + 1
    }
}

/// A name is given only where an identity can be enrolled.
proof fn lemma_enrolling_from(stored: Seq<IdentitySnapshot>) -> (at: int)
    requires
        first_enrolling(stored) is Some,
    ensures
        0 <= at < stored.len(),
        stored[at].can_enroll,
        first_enrolling(stored) == Some(stored[at].name@),
    decreases stored.len(),
{
    if stored[0].can_enroll {
        0
    } else {
        let rest = stored.drop_first();
        let at = lemma_enrolling_from(rest);
        assert(rest[at] == stored[at + 1]);
        at + 1
    }
}

/// The first identity that can be enrolled, over all contexts.
proof fn lemma_first_subject(contexts: Seq<IdentityContext>, i: int, k: int) -> (place: (int, int))
    requires
        0 <= i < contexts.len(),
        0 <= k < contexts[i].identities@.len(),
        contexts[i].identities@[k].can_enroll,
    ensures
        0 <= place.0 <= i,
        0 <= place.1 < contexts[place.0].identities@.len(),
        place.0 == i ==> place.1 <= k,
        contexts[place.0].identities@[place.1].can_enroll,
        first_subject(contexts) == Some(contexts[place.0].identities@[place.1].name@),
    decreases contexts.len(),
{
    if i == 0 {
        let at = lemma_first_enrolling(contexts[0].identities@, k);
        (0, at)
    } else if first_enrolling(contexts[0].identities@) is Some {
        let at = lemma_enrolling_from(contexts[0].identities@);
        (0, at)
    } else {
        let rest = contexts.drop_first();
        assert(rest[i - 1] == contexts[i]);
        let place = lemma_first_subject(rest, i - 1, k);
        assert(rest[place.0] == contexts[place.0 + 1]);
        (place.0 + 1, place.1)
    }
}

/// Every authority of a store is offered, and enrolment is available exactly
/// where there is one.
pub proof fn authorities_of_a_store_are_offered(
    flow: EnrollmentFlowState,
    contexts: Seq<IdentityContext>,
    i: int,
    k: int,
) -> (place: (int, int))
    requires
        flow@ == identity_enrollment(contexts),
    ensures
        0 <= i < contexts.len() && 0 <= k < contexts[i].ca_endpoints@.len() ==> flow.available
            && text::string_texts(flow.ca_endpoints@).contains(contexts[i].ca_endpoints@[k]@),
        flow.available ==> 0 <= place.0 < contexts.len() && 0 <= place.1
            < contexts[place.0].ca_endpoints@.len() && flow.ca_endpoints@[0]@
            == contexts[place.0].ca_endpoints@[place.1]@,
{
    let ends = |context: IdentityContext| text::string_texts(context.ca_endpoints@);
    let all = text::string_texts(flow.ca_endpoints@);
    assert(all == all_endpoints(contexts));
    if 0 <= i < contexts.len() && 0 <= k < contexts[i].ca_endpoints@.len() {
        list::lemma_flatten_holds(contexts, ends, i, k);
        assert(ends(contexts[i])[k] == contexts[i].ca_endpoints@[k]@);
    }
    if all.len() > 0 {
        let place = list::lemma_flatten_from(contexts, ends, 0);
        assert(all[0] == flow.ca_endpoints@[0]@);
        place
    } else {
        (0, 0)
    }
}

/// A validation shows each step of the chain and each rule that was tried, in
/// their order, and says what failed in the words of that failure.
pub proof fn validation_shows_the_chain(
    frame: ValidationFrame,
    trace: ChainTrace,
    i: int,
    k: int,
)
    requires
        frame@ == trace_view(trace),
    ensures
        frame.target@ == trace.target@,
        frame.chain@.len() == trace.steps@.len(),
        0 <= i < trace.steps@.len() ==> {
            &&& frame.chain@[i].name@ == trace.steps@[i].name@
            &&& frame.chain@[i].signed_by@ == trace.steps@[i].signed_by@
            &&& frame.chain@[i].anchor == trace.steps@[i].is_anchor
        },
        frame.rules@.len() == trace.rules_applied@.len(),
        0 <= k < trace.rules_applied@.len() ==> {
            &&& frame.rules@[k].data_pattern@ == trace.rules_applied@[k].data_pattern@
            &&& frame.rules@[k].key_pattern@ == trace.rules_applied@[k].key_pattern@
            &&& frame.rules@[k].matches == trace.rules_applied@[k].matches
        },
        trace.failure is None ==> frame.verdict@ == "valid"@ && frame.failure is None,
        trace.failure is Some ==> frame.verdict@ == "invalid"@ && frame.failure is Some,
        trace.failure matches Some(TraceFailure::CertNotFound { name }) ==> (frame.failure->0)@
            == "cert not found: "@ + name@,
        trace.failure matches Some(TraceFailure::NoKeyLocator { name }) ==> (frame.failure->0)@
            == "no KeyLocator in chain at "@ + name@,
        trace.failure matches Some(TraceFailure::AnchorNotTrusted { name }) ==> (
        frame.failure->0)@ == "anchor not trusted: "@ + name@,
        trace.failure matches Some(TraceFailure::ChainTooDeep { limit }) ==> (frame.failure->0)@
            == "chain too deep: limit "@ + number::decimal_text(limit as nat),
{
    assert(frame@.failure == text::opt_text(frame.failure));
    let steps = identity::step_texts(frame.chain@);
    assert(frame@.chain == steps);
    assert(steps.len() == frame.chain@.len());
    if 0 <= i < trace.steps@.len() {
        assert(steps[i] == frame.chain@[i]@);
    }
    let rules = identity::rule_texts(frame.rules@);
    assert(frame@.rules == rules);
    assert(rules.len() == frame.rules@.len());
    if 0 <= k < trace.rules_applied@.len() {
        assert(rules[k] == frame.rules@[k]@);
    }
}

/// Nothing is adopted without a confirmation out of band, and what is confirmed
/// is handed on unchanged.
pub proof fn adoption_needs_a_confirmation(
    request: TofuAdoptionRequest,
    begun: Result<String, String>,
    ticket: TicketSnapshot,
    adopted: bool,
    ended: Result<TofuAdoptionReport, String>,
)
    requires
        call_ensures(begin_tofu_adoption, (&request,), begun),
        call_ensures(finish_tofu_adoption, (&ticket, adopted), ended),
    ensures
        !request.confirmed_oob ==> begun is Err,
        request.confirmed_oob ==> begun == Ok::<String, String>(request.bootstrap_fragment),
        !adopted ==> ended is Err,
        adopted ==> (ended matches Ok(report) && report.adopted && report.namespace@
            == ticket.namespace@ && report.fingerprint@ == "sha256:"@ + ticket.anchor_fp_hex@),
{
}

/// Only an issued certificate ends an enrolment well; every other outcome is an
/// error that carries its cause.
pub proof fn only_issued_certificates_are_reported(
    outcome: EnrollmentOutcome,
    ended: Result<EnrollmentExecutionReport, String>,
)
    requires
        call_ensures(finish_enrollment, (outcome,), ended),
    ensures
        ended is Ok <==> outcome is Issued,
        outcome matches EnrollmentOutcome::Issued { cert_name, fingerprint } ==> (ended matches Ok(
            report,
        ) && report.cert_name@ == cert_name@ && report.fingerprint@ == "sha256:"@ + fingerprint@),
        outcome matches EnrollmentOutcome::InvalidSubject(error) ==> (ended matches Err(message)
            && error@.is_suffix_of(message@)),
        outcome matches EnrollmentOutcome::Refused(error) ==> (ended matches Err(message)
            && error@.is_suffix_of(message@)),
{
    if let EnrollmentOutcome::InvalidSubject(error) = outcome {
        let message = (ended->Err_0)@;
        assert(message.subrange(message.len() - error@.len(), message.len() as int) =~= error@);
    }
    if let EnrollmentOutcome::Refused(error) = outcome {
        let message = (ended->Err_0)@;
        assert(message.subrange(message.len() - error@.len(), message.len() as int) =~= error@);
    }
}

/// A summary of live parts counts these parts and shows them as they are.
pub proof fn live_parts_are_shown_as_they_are(
    summary: TrustContextSummary,
    profile: ForwarderProfile,
    posture: TrustPosture,
    parts: LiveTrustParts,
)
    requires
        summary.is_made_of(profile, posture, parts),
    ensures
        summary.posture == posture,
        summary.anchors == parts.anchors_detail@.len(),
        summary.pending_approvals == parts.approvals@.len(),
        parts.contexts@.len() > 0 ==> summary.namespace@ == parts.contexts@[0].namespace@,
        parts.contexts@.len() == 0 ==> summary.namespace@ == "/"@,
        parts.identities@.len() == 0 ==> summary.identity@ == "verification only"@,
        parts.identities@.len() > 0 && parts.identities@[0].active ==> summary.identity@
            == parts.identities@[0].name@,
        summary.contexts@ == parts.contexts@,
        summary.identities@ == parts.identities@,
        summary.key_inventory@ == parts.key_inventory@,
        summary.validation_frame == parts.validation_frame,
        summary.safebag_import.available,
{
    let names = identity::identity_texts(parts.identities@);
    let at = identity::first_active_identity_is_shown(names, "verification only"@);
    let contexts = identity::context_texts(parts.contexts@);
    assert(contexts.len() == parts.contexts@.len());
    if parts.contexts@.len() > 0 {
        assert(contexts[0] == parts.contexts@[0]@);
    }
    assert(names.len() == parts.identities@.len());
    if parts.identities@.len() > 0 {
        assert(names[0] == parts.identities@[0]@);
    }
}

/// The first context of a store tells what was adopted, by its own anchor;
/// without one a ticket is awaited.
pub proof fn adoption_is_told_by_the_first_store_context(
    flow: AdoptionFlowState,
    contexts: Seq<IdentityContext>,
)
    requires
        flow@ == identity_adoption(contexts),
    ensures
        flow.available && flow.requires_oob_confirmation,
        contexts.len() == 0 ==> flow.namespace_hint@ == "/"@ && flow.state@
            == "no adopted contexts"@ && flow.fingerprint_hint@ == "awaiting bootstrap ticket"@,
        contexts.len() > 0 ==> flow.namespace_hint@ == contexts[0].name@ && flow.state@
            == "adopted"@ && flow.fingerprint_hint@ == "sha256:"@
            + contexts[0].anchor_fingerprint@,
{
}

} // verus!
