use ndn_dashboard_next::identity::live::{
    begin_tofu_adoption, finish_enrollment, finish_tofu_adoption, invalid_ticket,
    CertificateSnapshot, ChainStep, ChainTrace, CustodianRef, DidDocument, EnrollmentHint,
    EnrollmentOutcome, IdentityContext, IdentityLifetime, IdentitySnapshot, RuleMatch,
    SecurityContext, TicketSnapshot, TofuAdoptionRequest, TraceFailure,
};
use ndn_dashboard_next::identity::{DidFrame, TrustContextSummary, ValidationFrame};
use ndn_dashboard_next::model::{fixtures, PlatformKind, TrustPosture};

#[test]
fn unsupported_profile_has_no_dashboard_owned_identity() {
    let summary =
        TrustContextSummary::from_profile(&fixtures::nfd_profile(), TrustPosture::Unsupported);
    assert_eq!(summary.identity, "not available");
    assert_eq!(summary.anchors, 0);
    assert!(!summary.custody.owns_private_keys);
    assert!(summary.identities.is_empty());
}

#[test]
fn native_trust_summary_keeps_keys_out_of_dashboard() {
    let summary = TrustContextSummary::from_profile(
        &fixtures::ndnrs_profile(PlatformKind::Desktop),
        TrustPosture::Valid,
    );
    assert_eq!(summary.anchors, 2);
    assert_eq!(summary.pending_approvals, 1);
    assert!(
        summary
            .identities
            .iter()
            .all(|row| !row.private_key_owned_by_dashboard)
    );
    assert!(!summary.key_inventory.is_empty());
}

#[test]
fn browser_trust_summary_warns_about_custody() {
    let summary = TrustContextSummary::from_profile(
        &fixtures::browser_engine_profile(),
        TrustPosture::Ephemeral,
    );
    assert_eq!(summary.custody.title, "Browser custodian required");
    assert!(
        summary
            .safebag_import
            .warnings
            .iter()
            .any(|warning| warning.contains("custodian"))
    );
}

fn certificate(name: &str) -> CertificateSnapshot {
    CertificateSnapshot {
        name: name.into(),
        fingerprint: "ab12".into(),
        valid_now: true,
        did: DidDocument {
            id: format!("did:ndn:{name}"),
            verification_methods: 1,
            services: 2,
            also_known_as: vec![name.to_string()],
        },
    }
}

#[test]
fn security_keyring_snapshot_feeds_trust_view_without_identity_ownership() {
    let context = SecurityContext {
        namespace: "/lab".into(),
        enforces_hierarchy: true,
        version: 4,
        schema_rules: 1,
        anchors: Vec::new(),
        ca_endpoints: vec!["/lab/CA".into()],
        enrollment_hint: Some(EnrollmentHint {
            challenges: vec!["token".into()],
            require_all: false,
        }),
    };

    let summary = TrustContextSummary::from_security_keyring(
        &fixtures::ndnrs_profile(PlatformKind::Desktop),
        TrustPosture::Valid,
        &vec![context],
    );

    assert_eq!(summary.namespace, "/lab");
    assert_eq!(summary.identity, "verification only");
    assert_eq!(summary.enrollment.ca_endpoints, vec!["/lab/CA"]);
    assert!(summary.identities.is_empty());
    assert!(!summary.custody.owns_private_keys);
}

#[test]
fn identity_contexts_feed_the_trust_view() {
    let context = IdentityContext {
        name: "/lab".into(),
        identities: vec![IdentitySnapshot {
            name: "/lab/alice".into(),
            key_name: "/lab/alice/KEY/1".into(),
            custodian: CustodianRef::OsKeyring,
            lifetime: IdentityLifetime::Persistent,
            can_enroll: true,
        }],
        anchors: vec![certificate("/lab/KEY/root")],
        anchor_fingerprint: "ab12".into(),
        schema_rules: 3,
        ca_endpoints: vec!["/lab/CA".into()],
    };
    let summary = TrustContextSummary::from_identity_contexts(
        &fixtures::ndnrs_profile(PlatformKind::Desktop),
        TrustPosture::Valid,
        &vec![context],
    );
    assert_eq!(summary.identity, "/lab/alice");
    assert_eq!(summary.anchors, 1);
    assert_eq!(summary.schema_rules, 3);
    assert_eq!(summary.identities[0].custodian, "OS keyring");
    assert!(!summary.identities[0].private_key_owned_by_dashboard);
}

#[test]
fn certificates_are_framed_as_did_documents() {
    let frame = DidFrame::from_certificate(&certificate("/lab/KEY/root"));
    assert_eq!(frame.did, "did:ndn:/lab/KEY/root");
    assert_eq!(frame.source_name, "/lab/KEY/root");
    assert_eq!(frame.verification_methods, 1);
    assert_eq!(frame.services, 2);
}

fn trace(failure: Option<TraceFailure>) -> ChainTrace {
    ChainTrace {
        target: "/lab/data".into(),
        failure,
        steps: vec![ChainStep {
            name: "/lab/data".into(),
            signed_by: "/lab/KEY/root".into(),
            is_anchor: false,
        }],
        rules_applied: vec![RuleMatch {
            data_pattern: "/lab/<>*".into(),
            key_pattern: "/lab/KEY/<>".into(),
            matches: true,
        }],
    }
}

#[test]
fn verdicts_follow_failures() {
    let good = ValidationFrame::from_chain_trace(&trace(None));
    assert_eq!(good.verdict, "valid");
    assert_eq!(good.failure, None);
    assert_eq!(good.chain.len(), 1);
    assert!(good.rules[0].matches);
    for (failure, words) in [
        (
            TraceFailure::CertNotFound { name: "/k".into() },
            "cert not found: /k",
        ),
        (
            TraceFailure::NoKeyLocator { name: "/k".into() },
            "no KeyLocator in chain at /k",
        ),
        (
            TraceFailure::AnchorNotTrusted { name: "/k".into() },
            "anchor not trusted: /k",
        ),
        (
            TraceFailure::ChainTooDeep { limit: 5 },
            "chain too deep: limit 5",
        ),
    ] {
        assert_eq!(failure.label(), words);
        let bad = ValidationFrame::from_chain_trace(&trace(Some(failure)));
        assert_ne!(bad.verdict, "valid");
        assert_eq!(bad.failure.as_deref(), Some(words));
    }
}

#[test]
fn adoption_needs_an_out_of_band_confirmation() {
    let mut request = TofuAdoptionRequest {
        bootstrap_fragment: "fragment".into(),
        confirmed_oob: false,
    };
    assert_eq!(
        begin_tofu_adoption(&request),
        Err("out-of-band fingerprint confirmation is required".to_string())
    );
    request.confirmed_oob = true;
    assert_eq!(begin_tofu_adoption(&request), Ok("fragment".to_string()));
    assert!(invalid_ticket("short").contains("short"));
    let ticket = TicketSnapshot {
        namespace: "/lab".into(),
        anchor_fp_hex: "ab12".into(),
    };
    let report = finish_tofu_adoption(&ticket, true).expect("report");
    assert!(report.adopted);
    assert_eq!(report.namespace, "/lab");
}

#[test]
fn enrollment_reports_what_was_issued() {
    let report = finish_enrollment(EnrollmentOutcome::Issued {
        cert_name: "/lab/alice/KEY/1/CA/1".into(),
        fingerprint: "ab12".into(),
    })
    .expect("report");
    assert_eq!(report.cert_name, "/lab/alice/KEY/1/CA/1");
    assert_eq!(report.fingerprint, "sha256:ab12");
    assert!(finish_enrollment(EnrollmentOutcome::InvalidSubject("x".into())).is_err());
    assert!(finish_enrollment(EnrollmentOutcome::Refused("x".into())).is_err());
}
