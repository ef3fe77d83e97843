use ndn_dashboard_next::model::{fixtures, ForwarderProfile, PlatformKind, TrustPosture};
use ndn_dashboard_next::mutation::{
    begin_mutation, finish_mutation, preflight_mutation, CsCapacityCommand, CsEraseCommand,
    FaceCreateCommand, FaceDestroyCommand, ManagementOutcome, ManagementReply, MutationOperation,
    MutationRecord, MutationSession, MutationStatus, MutationStep, PreflightStatus,
    ReconnectForwarderCommand, RouteAddCommand, RouteRemoveCommand, ShutdownForwarderCommand,
    StrategySetCommand, StrategyUnsetCommand, TypedMutationCommand,
};

#[test]
fn ndnrs_valid_identity_allows_face_create() {
    let profile = fixtures::ndnrs_profile(PlatformKind::Desktop);
    let preflight =
        preflight_mutation(&profile, TrustPosture::Valid, MutationOperation::CreateFace);

    assert_eq!(preflight.status, PreflightStatus::Ready);
    assert!(preflight.can_execute());
}

#[test]
fn nfd_compat_profile_blocks_writes_in_milestone_one() {
    let profile = fixtures::nfd_profile();
    let preflight = preflight_mutation(
        &profile,
        TrustPosture::Unsupported,
        MutationOperation::AddRoute,
    );

    assert_eq!(preflight.status, PreflightStatus::Blocked);
    assert!(
        preflight
            .checks
            .iter()
            .any(|check| check.label == "target" && !check.passed)
    );
}

#[test]
fn trust_mutation_requires_native_trust_context() {
    let profile = fixtures::browser_engine_profile();
    let preflight = preflight_mutation(
        &profile,
        TrustPosture::Valid,
        MutationOperation::AdoptTrustContext,
    );

    assert_eq!(preflight.status, PreflightStatus::Blocked);
    assert!(
        preflight
            .checks
            .iter()
            .any(|check| check.label == "trust context" && !check.passed)
    );
}

#[test]
fn destructive_operation_needs_confirmation_after_gates_pass() {
    let profile = fixtures::ndnrs_profile(PlatformKind::Desktop);
    let preflight =
        preflight_mutation(&profile, TrustPosture::Valid, MutationOperation::EraseCs);

    assert_eq!(preflight.status, PreflightStatus::NeedsConfirmation);
    assert!(preflight.can_execute());
}

#[test]
fn expired_identity_blocks_signed_command() {
    let profile = fixtures::ndnrs_profile(PlatformKind::Desktop);
    let preflight = preflight_mutation(
        &profile,
        TrustPosture::Expired,
        MutationOperation::SetStrategy,
    );

    assert_eq!(preflight.status, PreflightStatus::Blocked);
    assert!(
        preflight
            .checks
            .iter()
            .any(|check| check.label == "signature" && !check.passed)
    );
}

#[test]
fn browser_remote_face_create_waits_for_browser_safe_write_adapter() {
    let profile = fixtures::ndnrs_profile(PlatformKind::Browser);
    let preflight =
        preflight_mutation(&profile, TrustPosture::Valid, MutationOperation::CreateFace);

    assert_eq!(preflight.status, PreflightStatus::Blocked);
    assert!(
        preflight
            .checks
            .iter()
            .any(|check| check.label == "platform" && !check.passed)
    );
}

#[test]
fn ndnrs_valid_identity_allows_route_add() {
    let profile = fixtures::ndnrs_profile(PlatformKind::Desktop);
    let preflight =
        preflight_mutation(&profile, TrustPosture::Valid, MutationOperation::AddRoute);

    assert_eq!(preflight.status, PreflightStatus::Ready);
    assert!(preflight.can_execute());
}

#[test]
fn route_remove_needs_confirmation_after_gates_pass() {
    let profile = fixtures::ndnrs_profile(PlatformKind::Desktop);
    let preflight = preflight_mutation(
        &profile,
        TrustPosture::Valid,
        MutationOperation::RemoveRoute,
    );

    assert_eq!(preflight.status, PreflightStatus::NeedsConfirmation);
    assert!(preflight.can_execute());
}

#[test]
fn ndnrs_valid_identity_allows_strategy_set() {
    let profile = fixtures::ndnrs_profile(PlatformKind::Desktop);
    let preflight = preflight_mutation(
        &profile,
        TrustPosture::Valid,
        MutationOperation::SetStrategy,
    );

    assert_eq!(preflight.status, PreflightStatus::Ready);
    assert!(preflight.can_execute());
}

#[test]
fn strategy_unset_needs_confirmation_after_gates_pass() {
    let profile = fixtures::ndnrs_profile(PlatformKind::Desktop);
    let preflight = preflight_mutation(
        &profile,
        TrustPosture::Valid,
        MutationOperation::UnsetStrategy,
    );

    assert_eq!(preflight.status, PreflightStatus::NeedsConfirmation);
    assert!(preflight.can_execute());
}

#[test]
fn ndnrs_valid_identity_allows_cs_capacity_set() {
    let profile = fixtures::ndnrs_profile(PlatformKind::Desktop);
    let preflight = preflight_mutation(
        &profile,
        TrustPosture::Valid,
        MutationOperation::SetCsCapacity,
    );

    assert_eq!(preflight.status, PreflightStatus::Ready);
    assert!(preflight.can_execute());
}

#[test]
fn cs_erase_needs_confirmation_after_gates_pass() {
    let profile = fixtures::ndnrs_profile(PlatformKind::Desktop);
    let preflight =
        preflight_mutation(&profile, TrustPosture::Valid, MutationOperation::EraseCs);

    assert_eq!(preflight.status, PreflightStatus::NeedsConfirmation);
    assert!(preflight.can_execute());
}

#[test]
fn shutdown_needs_confirmation_but_reconnect_is_ready() {
    let profile = fixtures::ndnrs_profile(PlatformKind::Desktop);
    let shutdown = preflight_mutation(
        &profile,
        TrustPosture::Valid,
        MutationOperation::ShutdownForwarder,
    );
    let reconnect = preflight_mutation(
        &profile,
        TrustPosture::Unsupported,
        MutationOperation::ReconnectForwarder,
    );

    assert_eq!(shutdown.status, PreflightStatus::NeedsConfirmation);
    assert_eq!(reconnect.status, PreflightStatus::Ready);
}

#[test]
fn typed_session_records_replayable_commands_only() {
    let mut session = MutationSession::default();
    session.record(TypedMutationCommand::RouteAdd(RouteAddCommand {
        prefix: "/ndn/test".into(),
        face_id: Some(7),
        cost: 10,
    }));
    session.record(TypedMutationCommand::ShutdownForwarder(
        ShutdownForwarderCommand {
            reason: "operator".into(),
        },
    ));

    assert_eq!(session.commands.len(), 1);
    assert_eq!(
        session.export_lines(),
        vec!["rib/register prefix=/ndn/test face=7 cost=10".to_string()]
    );
}

#[test]
fn typed_command_targets_are_constructed_from_command_fields() {
    assert_eq!(
        TypedMutationCommand::StrategySet(StrategySetCommand {
            prefix: "/ndn/video".into(),
            strategy: "/localhost/nfd/strategy/multicast/v=5".into(),
        })
        .target(),
        "/ndn/video -> /localhost/nfd/strategy/multicast/v=5"
    );
    assert_eq!(
        TypedMutationCommand::CsErase(CsEraseCommand {
            prefix: "/ndn/cache".into(),
            count: Some(3),
        })
        .session_line(),
        "cs/erase prefix=/ndn/cache count=3"
    );
}

fn blocked(profile: &ForwarderProfile, command: TypedMutationCommand) -> MutationRecord {
    match begin_mutation(profile, TrustPosture::Unsupported, command) {
        MutationStep::Done(record) => record,
        MutationStep::Send(_) => panic!("a blocked command is not sent"),
    }
}

#[test]
fn blocked_face_create_returns_record_without_ipc() {
    let record = blocked(
        &fixtures::nfd_profile(),
        TypedMutationCommand::FaceCreate(FaceCreateCommand {
            uri: "udp4://127.0.0.1:6363".into(),
            mtu: None,
        }),
    );

    assert_eq!(record.operation, MutationOperation::CreateFace);
    assert_eq!(record.status, MutationStatus::Blocked);
}

#[test]
fn blocked_route_add_returns_record_without_ipc() {
    let record = blocked(
        &fixtures::nfd_profile(),
        TypedMutationCommand::RouteAdd(RouteAddCommand {
            prefix: "/ndn/test".into(),
            face_id: Some(7),
            cost: 10,
        }),
    );

    assert_eq!(record.operation, MutationOperation::AddRoute);
    assert_eq!(record.status, MutationStatus::Blocked);
}

#[test]
fn blocked_strategy_set_returns_record_without_ipc() {
    let record = blocked(
        &fixtures::nfd_profile(),
        TypedMutationCommand::StrategySet(StrategySetCommand {
            prefix: "/ndn/test".into(),
            strategy: "/ndn/strategy/best-route/v5".into(),
        }),
    );

    assert_eq!(record.operation, MutationOperation::SetStrategy);
    assert_eq!(record.status, MutationStatus::Blocked);
}

#[test]
fn blocked_cs_capacity_returns_record_without_ipc() {
    let record = blocked(
        &fixtures::nfd_profile(),
        TypedMutationCommand::CsCapacity(CsCapacityCommand {
            capacity_bytes: 65_536,
        }),
    );

    assert_eq!(record.operation, MutationOperation::SetCsCapacity);
    assert_eq!(record.status, MutationStatus::Blocked);
}

fn finished(command: TypedMutationCommand, outcome: ManagementOutcome) -> MutationRecord {
    let mut profile = fixtures::ndnrs_profile(PlatformKind::Desktop);
    profile.endpoint = "unix:///private/tmp/ndn-dashboard-next-missing.sock".into();
    match begin_mutation(&profile, TrustPosture::Valid, command) {
        MutationStep::Send(ready) => {
            assert_eq!(ready.socket, "/private/tmp/ndn-dashboard-next-missing.sock");
            finish_mutation(ready, outcome)
        }
        MutationStep::Done(_) => panic!("the command is to be sent"),
    }
}

#[test]
fn missing_desktop_socket_returns_retryable_error() {
    let record = finished(
        TypedMutationCommand::ShutdownForwarder(ShutdownForwarderCommand {
            reason: "test".into(),
        }),
        ManagementOutcome::ConnectFailed("no such file".into()),
    );

    assert_eq!(record.operation, MutationOperation::ShutdownForwarder);
    assert_eq!(record.status, MutationStatus::Retryable);
}

fn reply() -> ManagementReply {
    ManagementReply {
        face_id: None,
        uri: None,
        name: None,
        strategy: None,
        cost: None,
        capacity: None,
        count: None,
        status_text: "OK".into(),
    }
}

#[test]
fn accepted_commands_tell_what_changed() {
    let record = finished(
        TypedMutationCommand::FaceCreate(FaceCreateCommand {
            uri: "udp4://127.0.0.1:6363".into(),
            mtu: Some(1400),
        }),
        ManagementOutcome::Accepted(ManagementReply {
            face_id: Some(300),
            uri: Some("udp4://127.0.0.1:6363".into()),
            ..reply()
        }),
    );
    assert_eq!(record.status, MutationStatus::Complete);
    assert_eq!(record.result, "face 300 created for udp4://127.0.0.1:6363");
    let record = finished(
        TypedMutationCommand::FaceDestroy(FaceDestroyCommand { face_id: 9 }),
        ManagementOutcome::Accepted(reply()),
    );
    assert!(record.result.contains("face 9"));
}

#[test]
fn every_outcome_has_a_status() {
    let command = TypedMutationCommand::StrategyUnset(StrategyUnsetCommand {
        prefix: "/ndn/test".into(),
    });
    for (outcome, status) in [
        (
            ManagementOutcome::InvalidPrefix("bad".into()),
            MutationStatus::Failed,
        ),
        (
            ManagementOutcome::ConnectFailed("gone".into()),
            MutationStatus::Retryable,
        ),
        (
            ManagementOutcome::Accepted(reply()),
            MutationStatus::Complete,
        ),
    ] {
        assert_eq!(finished(command.clone(), outcome).status, status);
    }
}

#[test]
fn reconnects_are_not_sent() {
    let profile = fixtures::ndnrs_profile(PlatformKind::Desktop);
    let command = TypedMutationCommand::ReconnectForwarder(ReconnectForwarderCommand {
        endpoint: profile.endpoint.clone(),
    });
    assert!(!command.replayable());
    match begin_mutation(&profile, TrustPosture::Valid, command) {
        MutationStep::Done(record) => {
            assert_eq!(record.status, MutationStatus::Complete);
            assert_eq!(
                record.result,
                "reconnect requested; attach probe will refresh dashboard state"
            );
        }
        MutationStep::Send(_) => panic!("a reconnect is not sent"),
    }
}

#[test]
fn running_counts_attempts_up_to_the_limit() {
    let profile = fixtures::ndnrs_profile(PlatformKind::Desktop);
    let preflight =
        preflight_mutation(&profile, TrustPosture::Valid, MutationOperation::RemoveRoute);
    let command = TypedMutationCommand::RouteRemove(RouteRemoveCommand {
        prefix: "/a".into(),
        face_id: None,
    });
    let mut record = MutationRecord::for_command(command, preflight);
    assert_eq!(record.status, MutationStatus::Pending);
    for _ in 0..300 {
        record = record.running();
    }
    assert_eq!(record.attempts, 255);
    assert_eq!(record.status, MutationStatus::Running);
}
