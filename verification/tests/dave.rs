//! End-to-end encryption: the state of the gateway and the coordination of a session.

use std::collections::{HashMap, HashSet};

use cacophony::dave::{
    decrypting_user, DaveAnswer, DaveCoordinator, DaveEvent, DaveIdentityCache, DaveIdentityKey,
    DaveKeyPackageScope, DaveMediaStatus, DavePreparedEpoch, DaveProposalsOperation, DavePump,
    DaveRequest, DaveStep, IdentityKeyPersistence, PassthroughMode, ProposalsOperation,
};
use cacophony::errors::{
    DaveDecryptError, DaveError, DaveProposalsPayloadError, DecryptError, Error,
    FrameDecryptError,
};
use cacophony::gateway::{DaveTransitionReadyCommand, GatewayCommand};
use cacophony::observer::ReceiveDecodeErrorKind;
use cacophony::state::{
    ConnectionInfo, ConnectionState, DaveInternalState, DaveMlsMessageIdentity,
    DaveMlsMessageKind, EncryptionMode, PendingDaveMlsMessage,
};
use cacophony::MediaType;

fn test_pending_mls(kind: DaveMlsMessageKind) -> PendingDaveMlsMessage {
    PendingDaveMlsMessage::new(
        DaveMlsMessageIdentity {
            kind,
            seq: 7,
            transition_id: 8,
        },
        vec![0xad],
    )
}

/// A session that answers as a working one does: a processed commit establishes the group
/// and stages a sender.
#[derive(Default)]
struct ScriptedSession {
    established: bool,
    staged: bool,
    sending: bool,
    sessions: usize,
    passthrough: Vec<PassthroughMode>,
    external_senders: Vec<Vec<u8>>,
    messages: Vec<(DaveMlsMessageKind, Vec<u8>)>,
    fail_proposals: bool,
    fail_messages: bool,
}

impl ScriptedSession {
    fn answer(&mut self, request: DaveRequest<'_>) -> DaveAnswer {
        match request {
            DaveRequest::ReplaceSession { .. } => {
                self.established = false;
                self.staged = false;
                self.sending = false;
                self.sessions += 1;
                DaveAnswer::Done
            }
            DaveRequest::ActivateStagedSender => {
                let activated = self.staged;
                self.sending = self.sending || self.staged;
                self.staged = false;
                DaveAnswer::Activated(activated)
            }
            DaveRequest::SetPassthrough(mode) | DaveRequest::OpenGrace(mode) => {
                self.passthrough.push(mode);
                DaveAnswer::Done
            }
            DaveRequest::SetExternalSender(bytes) => {
                self.external_senders.push(bytes.to_vec());
                DaveAnswer::Done
            }
            DaveRequest::CreateKeyPackage => DaveAnswer::KeyPackage(vec![0xaa; 4]),
            DaveRequest::ProcessProposals { proposals, .. } => {
                if self.fail_proposals {
                    DaveAnswer::Failed("no such group".to_string())
                } else {
                    DaveAnswer::CommitWelcome {
                        commit: proposals.to_vec(),
                        welcome: None,
                    }
                }
            }
            DaveRequest::ProcessMls { kind, payload } => {
                self.messages.push((kind, payload.to_vec()));
                if self.fail_messages {
                    DaveAnswer::Failed("not for us".to_string())
                } else {
                    self.established = true;
                    self.staged = true;
                    DaveAnswer::Done
                }
            }
        }
    }
}

fn run(
    coordinator: &mut DaveCoordinator,
    session: &mut ScriptedSession,
    dave: &DaveInternalState,
    roster_authoritative: bool,
) -> (Result<(), Error>, Vec<GatewayCommand>, Vec<DaveEvent>) {
    let mut pump = DavePump::new(roster_authoritative);
    let mut step = coordinator.pump(&mut pump, dave, session.established);
    loop {
        match step {
            Ok(DaveStep::Ask(request)) => {
                let answer = session.answer(request);
                assert!(pump.takes(&answer));
                step = coordinator.resume(&mut pump, dave, answer);
            }
            Ok(DaveStep::Finished) => return (Ok(()), pump.commands, pump.events),
            Err(error) => return (Err(error), pump.commands, pump.events),
        }
    }
}

#[test]
fn missing_dave_user_is_typed_error() {
    assert_eq!(
        decrypting_user(None).unwrap_err(),
        DaveDecryptError::MissingUser
    );
    assert_eq!(decrypting_user(Some(7)), Ok(7));
}

#[test]
fn dave_no_valid_cryptor_error_preserves_details() {
    let error =
        DaveDecryptError::from_source(DecryptError::Frame(FrameDecryptError::NoValidCryptor {
            media_type: MediaType::Audio,
            encrypted_size: 12,
            plaintext_capacity: 8,
            manager_count: 2,
        }));
    assert_eq!(
        error,
        DaveDecryptError::Source(DecryptError::Frame(FrameDecryptError::NoValidCryptor {
            media_type: MediaType::Audio,
            encrypted_size: 12,
            plaintext_capacity: 8,
            manager_count: 2,
        }))
    );
    assert_eq!(
        error.receive_decode_kind(),
        ReceiveDecodeErrorKind::DaveNoValidCryptor
    );
    assert!(error.is_no_valid_cryptor());
}

#[test]
fn dave_sole_member_reset_transition_zero_creates_pending_local_group() {
    let mut state = DaveInternalState::default();
    state.prepare_epoch(1, 1);
    state.external_sender = Some(vec![0xee; 8]);
    state.prepare_transition(0, 1);

    let mut dave = DaveCoordinator::new(1, 2);
    let mut session = ScriptedSession::default();
    let (result, commands, _) = run(&mut dave, &mut session, &state, true);
    result.unwrap();

    assert!(commands.iter().any(|command| {
        matches!(
            command,
            GatewayCommand::DaveMlsKeyPackage { key_package } if !key_package.is_empty()
        )
    }));
    assert!(!session.established);
    assert!(!session.sending);
    assert_eq!(dave.transition_ready(), None);
    assert_eq!(session.external_senders, vec![vec![0xee; 8]]);
}

#[test]
fn dave_prepare_epoch_keeps_established_transition_zero_sender() {
    let mut state = DaveInternalState::default();
    state.prepare_epoch(1, 1);
    state.external_sender = Some(vec![0xee; 8]);
    state.prepare_transition(0, 1);

    let mut dave = DaveCoordinator::new(1, 2);
    let mut session = ScriptedSession::default();
    let (result, commands, _) = run(&mut dave, &mut session, &state, true);
    result.unwrap();
    let key_package = commands
        .iter()
        .find_map(|command| match command {
            GatewayCommand::DaveMlsKeyPackage { key_package } => Some(key_package.as_slice()),
            _ => None,
        })
        .expect("initial pump sends our DAVE key package");
    assert!(!key_package.is_empty());

    state.proposals.push(vec![0, 1, 2, 3]);
    let (result, commands, _) = run(&mut dave, &mut session, &state, true);
    result.unwrap();
    let commit = commands
        .into_iter()
        .find_map(|command| match command {
            GatewayCommand::DaveMlsCommitWelcome { commit, .. } => Some(commit),
            _ => None,
        })
        .expect("processing our add proposal creates a commit");
    assert_eq!(commit, vec![1, 2, 3]);

    state.proposals.clear();
    state.pending_mls.set_message(PendingDaveMlsMessage::new(
        DaveMlsMessageIdentity {
            kind: DaveMlsMessageKind::Commit,
            seq: 1,
            transition_id: 0,
        },
        commit,
    ));
    run(&mut dave, &mut session, &state, true).0.unwrap();

    assert!(session.established);
    assert!(session.sending);
    let sessions = session.sessions;

    state.prepare_epoch(1, 1);
    run(&mut dave, &mut session, &state, true).0.unwrap();

    assert_eq!(session.sessions, sessions);
    assert!(session.established);
    assert!(session.sending);
}

#[test]
fn proposals_wait_for_the_roster() {
    let mut state = DaveInternalState::default();
    state.set_session_protocol(Some(1));
    state.external_sender = Some(vec![1]);
    state.proposals.push(vec![0, 9]);
    let mut dave = DaveCoordinator::new(1, 2);
    let mut session = ScriptedSession::default();
    let (_, commands, _) = run(&mut dave, &mut session, &state, false);
    assert!(!commands
        .iter()
        .any(|command| matches!(command, GatewayCommand::DaveMlsCommitWelcome { .. })));
    let (_, commands, events) = run(&mut dave, &mut session, &state, true);
    assert!(commands
        .iter()
        .any(|command| matches!(command, GatewayCommand::DaveMlsCommitWelcome { .. })));
    assert!(events.iter().any(|event| matches!(
        event,
        DaveEvent::ProposalsProcessed(processed)
            if processed.commit_sent && !processed.welcome_sent && processed.proposal_bytes == 1
    )));
    let (_, commands, _) = run(&mut dave, &mut session, &state, true);
    assert!(commands.is_empty());
}

#[test]
fn failing_proposals_are_left_out() {
    let mut state = DaveInternalState::default();
    state.set_session_protocol(Some(1));
    state.external_sender = Some(vec![1]);
    state.proposals.push(vec![1, 9, 9]);
    let mut dave = DaveCoordinator::new(1, 2);
    let mut session = ScriptedSession::default();
    session.fail_proposals = true;
    let (result, _, events) = run(&mut dave, &mut session, &state, true);
    result.unwrap();
    assert!(events.iter().any(|event| matches!(
        event,
        DaveEvent::ProposalsIgnored(ignored)
            if ignored.error == "no such group" && ignored.proposal_bytes == 2
    )));
    assert_eq!(dave.processed_proposals, 1);
}

#[test]
fn group_waits_for_the_external_sender() {
    let mut state = DaveInternalState::default();
    state.set_session_protocol(Some(1));
    state.proposals.push(vec![0, 9]);
    state
        .pending_mls
        .set_message(test_pending_mls(DaveMlsMessageKind::Welcome));
    let mut dave = DaveCoordinator::new(1, 2);
    let mut session = ScriptedSession::default();
    let (_, commands, _) = run(&mut dave, &mut session, &state, true);
    assert_eq!(commands.len(), 1);
    assert!(matches!(
        commands[0],
        GatewayCommand::DaveMlsKeyPackage { .. }
    ));
    assert!(session.messages.is_empty());
}

#[test]
fn messages_are_handed_over_once() {
    let mut state = DaveInternalState::default();
    state.set_session_protocol(Some(1));
    state.prepare_transition(8, 1);
    state.external_sender = Some(vec![1]);
    state
        .pending_mls
        .set_message(test_pending_mls(DaveMlsMessageKind::Welcome));
    let mut dave = DaveCoordinator::new(1, 2);
    let mut session = ScriptedSession::default();
    let (_, commands, _) = run(&mut dave, &mut session, &state, true);
    assert_eq!(
        session.messages,
        vec![(DaveMlsMessageKind::Welcome, vec![0xad])]
    );
    assert!(commands.iter().any(|command| matches!(
        command,
        GatewayCommand::DaveProtocolTransitionReady(DaveTransitionReadyCommand {
            transition_id: 8,
        })
    )));
    run(&mut dave, &mut session, &state, true).0.unwrap();
    assert_eq!(session.messages.len(), 1);
}

#[test]
fn refused_commits_start_the_group_anew() {
    let mut state = DaveInternalState::default();
    state.set_session_protocol(Some(1));
    state.prepare_transition(8, 1);
    state.external_sender = Some(vec![1]);
    state
        .pending_mls
        .set_message(test_pending_mls(DaveMlsMessageKind::Commit));
    let mut dave = DaveCoordinator::new(1, 2);
    let mut session = ScriptedSession::default();
    session.fail_messages = true;
    let before = session.sessions;
    let (result, commands, _) = run(&mut dave, &mut session, &state, true);
    assert!(matches!(
        result,
        Err(Error::Dave(DaveError::ProcessCommit(reason))) if reason == "not for us"
    ));
    assert_eq!(session.sessions, before + 1);
    assert!(commands.iter().any(|command| matches!(
        command,
        GatewayCommand::DaveMlsInvalidCommitWelcome(invalid) if invalid.transition_id == 8
    )));
    assert!(matches!(
        commands.last(),
        Some(GatewayCommand::DaveMlsKeyPackage { .. })
    ));
}

#[test]
fn plain_media_is_let_through() {
    let mut state = DaveInternalState::default();
    state.set_session_protocol(Some(0));
    let mut dave = DaveCoordinator::new(1, 2);
    let mut session = ScriptedSession::default();
    let (result, commands, events) = run(&mut dave, &mut session, &state, true);
    result.unwrap();
    assert!(commands.is_empty());
    assert_eq!(session.passthrough, vec![PassthroughMode::Enabled]);
    assert!(matches!(events.first(), Some(DaveEvent::GatewayState(_))));
    run(&mut dave, &mut session, &state, true).0.unwrap();
    assert_eq!(session.passthrough.len(), 1);
}

#[test]
fn dave_init_transition_zero_marks_local_ready_without_gateway_command() {
    let mut dave = DaveCoordinator::new(1, 2);
    let mut commands = Vec::new();
    let mut events = Vec::new();

    dave.mark_transition_ready(&mut commands, &mut events, Some(0), Some(1));

    assert_eq!(dave.transition_ready(), Some(0));
    assert!(commands.is_empty());
}

#[test]
fn dave_disabled_init_transition_zero_marks_local_ready_without_gateway_command() {
    let mut dave = DaveCoordinator::new(1, 2);
    let mut commands = Vec::new();
    let mut events = Vec::new();

    dave.mark_transition_ready(&mut commands, &mut events, Some(0), Some(0));

    assert_eq!(dave.transition_ready(), Some(0));
    assert!(commands.is_empty());
}

#[test]
fn dave_nonzero_transition_ready_sends_gateway_command() {
    let mut dave = DaveCoordinator::new(1, 2);
    let mut commands = Vec::new();
    let mut events = Vec::new();

    dave.mark_transition_ready(&mut commands, &mut events, Some(7), Some(1));

    assert_eq!(dave.transition_ready(), Some(7));
    assert_eq!(commands.len(), 1);
    assert!(matches!(
        commands.first(),
        Some(GatewayCommand::DaveProtocolTransitionReady(
            DaveTransitionReadyCommand { transition_id: 7 },
        ))
    ));
    assert_eq!(events.len(), 1);

    dave.mark_transition_ready(&mut commands, &mut events, Some(7), Some(1));
    assert_eq!(commands.len(), 1);
}

#[test]
fn dave_initial_transition_zero_stays_pending_without_epoch_reset() {
    let mut state = DaveInternalState::default();

    state.prepare_transition(0, 1);

    assert_eq!(state.transition_id(), Some(0));
    assert_eq!(state.epoch(), None);
    assert_eq!(state.protocol_version(), Some(1));
}

#[test]
fn dave_sole_member_reset_transition_zero_executes_immediately() {
    let mut state = DaveInternalState::default();
    state.prepare_epoch(1, 1);
    state.proposals.push(vec![0xde]);
    state
        .pending_mls
        .set_message(test_pending_mls(DaveMlsMessageKind::Commit));
    state
        .pending_mls
        .set_message(test_pending_mls(DaveMlsMessageKind::Welcome));

    state.prepare_transition(0, 1);

    assert_eq!(state.transition_id(), None);
    assert_eq!(state.epoch(), Some(1));
    assert_eq!(state.protocol_version(), Some(1));
    assert!(state.proposals.is_empty());
    assert!(state.pending_mls.is_empty());
}

#[test]
fn dave_transition_zero_media_ready_requires_local_ready_ack() {
    let mut state = DaveInternalState::default();
    state.prepare_transition(0, 1);

    assert!(!state.transition_zero_media_ready(None));
    assert!(state.transition_zero_media_ready(Some(0)));
    assert!(!state.transition_zero_media_ready(Some(1)));

    state.proposals.push(vec![0xde]);
    assert!(state.transition_zero_media_ready(Some(0)));
    state.proposals.clear();

    state
        .pending_mls
        .set_message(test_pending_mls(DaveMlsMessageKind::Welcome));
    assert!(state.transition_zero_media_ready(Some(0)));
}

#[test]
fn dave_send_media_ready_does_not_depend_on_consumed_transition_ack() {
    assert!(DaveMediaStatus::ready_from(false, false, false, false));
    assert!(!DaveMediaStatus::ready_from(true, false, true, true));
    assert!(!DaveMediaStatus::ready_from(true, true, false, true));
    assert!(!DaveMediaStatus::ready_from(true, true, true, false));
    assert!(DaveMediaStatus::ready_from(true, true, true, true));
}

#[test]
fn dave_receive_transform_is_only_active_for_dave_media() {
    let mut state = DaveInternalState::default();
    assert!(!state.receive_transform_active());

    state.set_session_protocol(Some(1));
    assert!(state.receive_transform_active());

    state.prepare_transition(0, 1);
    assert!(state.receive_transform_active());

    let mut state = DaveInternalState::default();
    state.set_session_protocol(Some(1));
    state.prepare_transition(7, 1);
    assert!(state.receive_transform_active());

    state.execute_transition(7);
    assert!(state.receive_transform_active());

    state.prepare_transition(8, 0);
    state.execute_transition(8);
    assert!(!state.receive_transform_active());
}

#[test]
fn dave_active_send_protocol_switches_only_on_execute() {
    let mut state = DaveInternalState::default();

    state.set_session_protocol(Some(1));
    assert_eq!(state.protocol_version(), Some(1));
    assert!(state.send_requires_dave());
    assert_eq!(state.active_send_protocol_version(), None);
    assert_eq!(state.active_receive_protocol_version(), None);

    state.prepare_transition(7, 1);
    assert_eq!(state.protocol_version(), Some(1));
    assert!(state.send_requires_dave());
    assert_eq!(state.active_send_protocol_version(), None);
    assert_eq!(state.active_receive_protocol_version(), None);

    state.execute_transition(7);
    assert_eq!(state.protocol_version(), Some(1));
    assert_eq!(state.active_send_protocol_version(), Some(1));
    assert_eq!(state.active_receive_protocol_version(), Some(1));

    state.set_session_protocol(Some(1));
    assert_eq!(state.protocol_version(), Some(1));
    assert_eq!(state.active_send_protocol_version(), Some(1));
    assert_eq!(state.active_receive_protocol_version(), Some(1));

    state.prepare_transition(7, 0);
    assert_eq!(state.protocol_version(), Some(0));
    assert_eq!(state.active_send_protocol_version(), Some(1));
    assert_eq!(state.active_receive_protocol_version(), Some(1));

    state.execute_transition(7);
    assert_eq!(state.protocol_version(), Some(0));
    assert_eq!(state.active_send_protocol_version(), Some(0));
    assert_eq!(state.active_receive_protocol_version(), Some(0));

    state.set_session_protocol(None);
    assert_eq!(state.protocol_version(), None);
    assert_eq!(state.active_send_protocol_version(), None);
    assert_eq!(state.active_receive_protocol_version(), None);
}

#[test]
fn dave_transport_to_dave_transition_waits_until_execute() {
    let mut state = DaveInternalState::default();

    state.set_session_protocol(Some(0));
    state.prepare_transition(7, 1);

    assert_eq!(state.protocol_version(), Some(1));
    assert!(!state.send_requires_dave());
    assert!(!state.receive_transform_active());
    assert_eq!(state.active_send_protocol_version(), Some(0));
    assert_eq!(state.active_receive_protocol_version(), Some(0));

    state.execute_transition(7);

    assert!(state.send_requires_dave());
    assert!(state.receive_transform_active());
    assert_eq!(state.active_send_protocol_version(), Some(1));
    assert_eq!(state.active_receive_protocol_version(), Some(1));
}

#[test]
fn dave_transition_zero_uses_dave_media_before_execute() {
    let mut state = DaveInternalState::default();

    state.prepare_transition(0, 1);

    assert_eq!(state.protocol_version(), Some(1));
    assert!(state.send_requires_dave());
    assert!(state.receive_transform_active());
    assert_eq!(state.active_send_protocol_version(), None);
    assert_eq!(state.active_receive_protocol_version(), None);
}

fn ephemeral(byte: u8) -> DaveIdentityKey {
    DaveIdentityKey::new(vec![byte; 65], IdentityKeyPersistence::Ephemeral)
}

#[test]
fn dave_default_identity_is_shared_for_active_user_sessions() {
    let mut cache = DaveIdentityCache::new();
    let identity = cache.shared_ephemeral(1, ephemeral(1));
    let other_connection = cache.shared_ephemeral(1, ephemeral(2));
    let other_user = cache.shared_ephemeral(2, ephemeral(3));

    assert_eq!(identity, other_connection);
    assert_ne!(identity, other_user);
    assert_eq!(
        identity.persistence(),
        IdentityKeyPersistence::Ephemeral
    );
}

#[test]
fn identities_are_forgotten_with_the_last_session() {
    let mut cache = DaveIdentityCache::new();
    let first = cache.shared_ephemeral(1, ephemeral(1));
    cache.shared_ephemeral(1, ephemeral(2));
    cache.release(1);
    assert!(cache.shared_ephemeral(1, ephemeral(3)).same_as(&first));
    cache.release(1);
    cache.release(1);
    assert_eq!(cache.shared_ephemeral(1, ephemeral(4)), ephemeral(4));
}

#[test]
fn dave_prepared_epoch_scope_includes_prepare_event_seq() {
    let mut first = DaveInternalState::default();
    first.prepare_epoch(1, 1);
    let mut second = first.copy();
    second.prepare_epoch(1, 1);

    assert_ne!(
        DavePreparedEpoch::from_state(&first),
        DavePreparedEpoch::from_state(&second)
    );

    first.prepare_epoch(1, 1);
    assert_eq!(
        DavePreparedEpoch::from_state(&first),
        DavePreparedEpoch::from_state(&second)
    );
}

#[test]
fn key_packages_are_scoped_by_the_prepared_epoch() {
    let mut state = DaveInternalState::default();
    assert_eq!(DaveKeyPackageScope::from_state(&state, None), None);
    state.set_session_protocol(Some(1));
    assert_eq!(
        DaveKeyPackageScope::from_state(&state, None),
        Some(DaveKeyPackageScope::Session {
            protocol_version: 1,
        })
    );
    state.prepare_epoch(1, 1);
    let epoch = DavePreparedEpoch::from_state(&state);
    let scope = DaveKeyPackageScope::from_state(&state, epoch).unwrap();
    assert_eq!(scope, DaveKeyPackageScope::Epoch(epoch.unwrap()));
    assert_eq!(scope.protocol_version(), 1);
}

#[test]
fn proposals_name_their_operation() {
    let (operation, rest) = DaveProposalsOperation::parse(&[0, 5, 6]).unwrap();
    assert_eq!(operation.kind, ProposalsOperation::Append);
    assert_eq!(operation.label, "append");
    assert_eq!(rest, &[5, 6]);
    let (operation, _) = DaveProposalsOperation::parse(&[1]).unwrap();
    assert_eq!(operation.kind, ProposalsOperation::Revoke);
    assert!(matches!(
        DaveProposalsOperation::parse(&[]),
        Err(DaveError::InvalidProposalsPayload(
            DaveProposalsPayloadError::MissingOperation
        ))
    ));
    assert!(matches!(
        DaveProposalsOperation::parse(&[2, 0]),
        Err(DaveError::InvalidProposalsPayload(
            DaveProposalsPayloadError::InvalidOperation { operation: 2 }
        ))
    ));
}

#[test]
fn shown_state_agrees_with_the_state() {
    let mut state = DaveInternalState::default();
    state.set_session_protocol(Some(1));
    state.push_proposals(vec![1]);
    state.set_external_sender(vec![2]);
    state.set_pending_mls_message(test_pending_mls(DaveMlsMessageKind::Commit));
    let shown = state.public_state();
    assert_eq!(shown.protocol_version, Some(1));
    assert_eq!(shown.mls.pending.proposals, 1);
    assert!(shown.mls.pending.commit);
    assert!(!shown.mls.pending.welcome);
    assert!(shown.mls.external_sender);
    assert_eq!(shown.send_requires_dave(), state.send_requires_dave());
    let status = DaveMediaStatus::from_public_state(&ConnectionState {
        connection: ConnectionInfo {
            guild_id: 1,
            channel_id: 2,
            user_id: 3,
            endpoint: String::new(),
            gateway_version: 8,
            max_dave_protocol_version: None,
        },
        heartbeat_interval_ms: 50,
        local_ssrc: 42,
        selected_mode: EncryptionMode::aead_aes256_gcm_rtpsize(),
        session: None,
        connected_user_ids: HashSet::new(),
        ssrc_users: HashMap::new(),
        speaking: HashMap::new(),
        dave: shown,
        resumed: false,
    });
    assert!(status.requires_dave);
    assert!(!status.media_ready);
    state.clear_pending_mls();
    assert!(state.pending_mls.is_empty());
}
