//! One look at the gateway's state: what the session is asked, in which order, and what
//! comes of its answers.

use super::coordinator::{CoordinatorView, DaveCoordinator, PassthroughMode, PumpState};
use super::epoch::{
    DaveGatewayStateEvent, DaveIgnoredProposalsEvent, DaveKeyPackageEvent, DaveKeyPackageScope, DavePreparedEpoch,
    DaveProposalsEvent, DaveTransitionEvent,
};
use super::status::{DaveProposalsOperation, ProposalsOperation};
use crate::errors::{DaveError, Error};
use crate::gateway::{DaveInvalidCommitWelcomeCommand, GatewayCommand};
use crate::state::dave::{encrypting, DaveMlsMessageKind, DaveView, SlotsView};
use vstd::prelude::*;

verus! {

/// What is reported.
pub enum DaveEvent {
    GatewayState(DaveGatewayStateEvent),
    ExternalSenderSet(DaveKeyPackageEvent),
    KeyPackageSent(DaveKeyPackageEvent),
    ProposalsProcessed(DaveProposalsEvent),
    ProposalsIgnored(DaveIgnoredProposalsEvent),
    TransitionReadySent(DaveTransitionEvent),
}

/// What the encryption session is asked.
pub enum DaveRequest<'a> {
    /// A new session takes the place of the old one.
    ReplaceSession { user_id: u64, channel_id: u64, protocol_version: u16 },
    /// The keys for sending that wait are used from now on, if there are any.
    ActivateStagedSender,
    SetPassthrough(PassthroughMode),
    /// Passthrough is enabled, and then disabled after the grace.
    OpenGrace(PassthroughMode),
    SetExternalSender(&'a [u8]),
    CreateKeyPackage,
    ProcessProposals { operation: ProposalsOperation, proposals: &'a [u8] },
    ProcessMls { kind: DaveMlsMessageKind, payload: &'a [u8] },
}

/// The same as a mathematical value.
pub enum RequestView {
    ReplaceSession { user_id: u64, channel_id: u64, protocol_version: u16 },
    ActivateStagedSender,
    SetPassthrough(PassthroughMode),
    OpenGrace(PassthroughMode),
    SetExternalSender(Seq<u8>),
    CreateKeyPackage,
    ProcessProposals { operation: ProposalsOperation, proposals: Seq<u8> },
    ProcessMls { kind: DaveMlsMessageKind, payload: Seq<u8> },
}

impl<'a> View for DaveRequest<'a> {
    type V = RequestView;

    open spec fn view(&self) -> RequestView {
        match *self {
            DaveRequest::ReplaceSession { user_id, channel_id, protocol_version } =>
                RequestView::ReplaceSession { user_id, channel_id, protocol_version },
            DaveRequest::ActivateStagedSender => RequestView::ActivateStagedSender,
            DaveRequest::SetPassthrough(mode) => RequestView::SetPassthrough(mode),
            DaveRequest::OpenGrace(mode) => RequestView::OpenGrace(mode),
            DaveRequest::SetExternalSender(bytes) => RequestView::SetExternalSender(bytes@),
            DaveRequest::CreateKeyPackage => RequestView::CreateKeyPackage,
            DaveRequest::ProcessProposals { operation, proposals } => {
                RequestView::ProcessProposals { operation, proposals: proposals@ }
            },
            DaveRequest::ProcessMls { kind, payload } => {
                RequestView::ProcessMls { kind, payload: payload@ }
            },
        }
    }
}

/// What the session answers.
pub enum DaveAnswer {
    Done,
    /// Whether there were keys that waited.
    Activated(bool),
    /// There is no session for that version of the protocol.
    UnsupportedVersion,
    Failed(String),
    KeyPackage(Vec<u8>),
    CommitWelcome { commit: Vec<u8>, welcome: Option<Vec<u8>> },
    NoCommit,
}

/// Which answer is waited for.
pub enum DavePumpStage {
    Idle,
    EpochSession(DavePreparedEpoch),
    FirstSender,
    PlainPassthrough,
    GracePassthrough,
    ExternalSender,
    KeyPackage(DaveKeyPackageScope),
    SecondSender,
    Proposals { operation: &'static str, proposal_bytes: usize },
    Mls(DaveMlsMessageKind),
    MlsGrace(DaveMlsMessageKind),
    ZeroSender,
    LastSender,
    RecoveryPassthrough { error: DaveError },
    RecoverySession { kind: DaveMlsMessageKind, error: DaveError, protocol_version: u16 },
    RecoverySender { kind: DaveMlsMessageKind, error: DaveError },
    RecoveryKeyPackage {
        kind: DaveMlsMessageKind,
        error: DaveError,
        scope: DaveKeyPackageScope,
    },
}

impl DavePumpStage {
    /// Whether an answer is one to what was asked.
    pub open spec fn takes(self, answer: DaveAnswer) -> bool {
        match self {
            DavePumpStage::Idle => false,
            DavePumpStage::EpochSession(_) | DavePumpStage::RecoverySession { .. } => answer is Done
                || answer is UnsupportedVersion || answer is Failed,
            DavePumpStage::FirstSender
            | DavePumpStage::SecondSender
            | DavePumpStage::ZeroSender
            | DavePumpStage::LastSender => answer is Activated,
            DavePumpStage::PlainPassthrough
            | DavePumpStage::GracePassthrough
            | DavePumpStage::MlsGrace(_)
            | DavePumpStage::RecoveryPassthrough { .. } => answer is Done,
            DavePumpStage::ExternalSender
            | DavePumpStage::RecoverySender { .. }
            | DavePumpStage::Mls(_) => answer is Done || answer is Failed,
            DavePumpStage::KeyPackage(_) | DavePumpStage::RecoveryKeyPackage { .. } => answer
                is KeyPackage || answer is Failed,
            DavePumpStage::Proposals { .. } => answer is CommitWelcome || answer is NoCommit
                || answer is Failed,
        }
    }
}

/// What comes next: a request, the end, or an error.
pub enum Next {
    Ask { request: RequestView, stage: DavePumpStage, state: PumpState },
    Finished { state: PumpState },
    Failed { error: Error, state: PumpState },
}

pub open spec fn failed(error: DaveError, state: PumpState) -> Next {
    Next::Failed { error: Error::Dave(error), state }
}

/// Whether a transition to encryption was executed.
pub open spec fn transition_executed(dave: DaveView) -> bool {
    dave.transition_id is None && encrypting(dave.active_send)
}

/// From the start: an epoch that was prepared anew is taken over, its first epoch with a
/// new session, where the session is not ready.
pub open spec fn from_start(
    dave: DaveView,
    session_ready: bool,
    roster: bool,
    state: PumpState,
) -> Next {
    let seen = state.observed(dave);
    let prepared = DavePreparedEpoch::prepared(dave);
    if seen.memory.prepared_epoch == prepared {
        from_epoch(dave, roster, seen)
    } else {
        match prepared {
            None => from_epoch(
                dave,
                roster,
                seen.with_memory(CoordinatorView { prepared_epoch: None, ..seen.memory }),
            ),
            Some(epoch) => {
                let cleared = CoordinatorView {
                    sent_key_package_for: None,
                    processed_proposals: 0,
                    processed_mls: SlotsView::empty(),
                    ..seen.memory
                };
                if epoch.epoch == 1 && !session_ready {
                    Next::Ask {
                        request: RequestView::ReplaceSession {
                            user_id: cleared.user_id,
                            channel_id: cleared.channel_id,
                            protocol_version: epoch.protocol_version,
                        },
                        stage: DavePumpStage::EpochSession(epoch),
                        state: seen.with_memory(
                            CoordinatorView { transition_ready: None, ..cleared },
                        ),
                    }
                } else {
                    from_epoch(
                        dave,
                        roster,
                        seen.with_memory(
                            CoordinatorView { prepared_epoch: Some(epoch), ..cleared },
                        ),
                    )
                }
            },
        }
    }
}

/// Once the epoch is known: keys that wait are used where a transition was executed.
pub open spec fn from_epoch(dave: DaveView, roster: bool, state: PumpState) -> Next {
    if transition_executed(dave) {
        Next::Ask {
            request: RequestView::ActivateStagedSender,
            stage: DavePumpStage::FirstSender,
            state,
        }
    } else {
        from_sender(dave, roster, state)
    }
}

/// Passthrough, as the version asks for. Without encryption that is all.
pub open spec fn from_sender(dave: DaveView, roster: bool, state: PumpState) -> Next {
    let plain = !encrypting(dave.protocol_version);
    let mode = if plain {
        PassthroughMode::Enabled
    } else {
        PassthroughMode::grace()
    };
    if state.memory.passthrough == Some(mode) {
        if plain {
            end_plain(dave, state)
        } else {
            from_passthrough(dave, roster, state)
        }
    } else {
        Next::Ask {
            request: RequestView::SetPassthrough(mode),
            stage: if plain {
                DavePumpStage::PlainPassthrough
            } else {
                DavePumpStage::GracePassthrough
            },
            state: state.with_memory(
                CoordinatorView { passthrough: Some(mode), ..state.memory },
            ),
        }
    }
}

pub open spec fn end_plain(dave: DaveView, state: PumpState) -> Next {
    Next::Finished { state: state.marked_ready(dave.transition_id, dave.protocol_version) }
}

/// The external sender is set once.
pub open spec fn from_passthrough(dave: DaveView, roster: bool, state: PumpState) -> Next {
    match dave.external_sender {
        Some(sender) if !state.memory.external_sender_set => Next::Ask {
            request: RequestView::SetExternalSender(sender),
            stage: DavePumpStage::ExternalSender,
            state,
        },
        _ => from_external_sender(dave, roster, state),
    }
}

/// A key package is made once for what it is for.
pub open spec fn from_external_sender(dave: DaveView, roster: bool, state: PumpState) -> Next {
    match DaveKeyPackageScope::wanted(dave, state.memory.prepared_epoch) {
        Some(scope) if state.memory.sent_key_package_for != Some(scope) => Next::Ask {
            request: RequestView::CreateKeyPackage,
            stage: DavePumpStage::KeyPackage(scope),
            state,
        },
        _ => from_key_package(dave, roster, state),
    }
}

/// Without an external sender that is all.
pub open spec fn from_key_package(dave: DaveView, roster: bool, state: PumpState) -> Next {
    if !state.memory.external_sender_set {
        Next::Finished { state }
    } else if transition_executed(dave) {
        Next::Ask {
            request: RequestView::ActivateStagedSender,
            stage: DavePumpStage::SecondSender,
            state,
        }
    } else {
        from_second_sender(dave, roster, state)
    }
}

/// Where there are fewer proposals than were seen, they are new. Proposals wait for the
/// roster.
pub open spec fn from_second_sender(dave: DaveView, roster: bool, state: PumpState) -> Next {
    let processed = if state.memory.processed_proposals > dave.proposals.len() {
        0usize
    } else {
        state.memory.processed_proposals
    };
    let ready = state.with_memory(
        CoordinatorView { processed_proposals: processed, ..state.memory },
    );
    if dave.proposals.len() > processed && !roster {
        Next::Finished { state: ready }
    } else {
        from_proposals(dave, ready)
    }
}

/// The proposals that were not seen, in turn.
pub open spec fn from_proposals(dave: DaveView, state: PumpState) -> Next {
    let index = state.memory.processed_proposals;
    if index < dave.proposals.len() {
        match DaveProposalsOperation::read(dave.proposals[index as int]) {
            Ok((operation, proposals)) => Next::Ask {
                request: RequestView::ProcessProposals { operation: operation.kind, proposals },
                stage: DavePumpStage::Proposals {
                    operation: operation.label,
                    proposal_bytes: proposals.len() as usize,
                },
                state,
            },
            Err(error) => failed(error, state),
        }
    } else {
        from_welcome(dave, state)
    }
}

/// The welcome, where it was not seen, and then the commit.
pub open spec fn from_welcome(dave: DaveView, state: PumpState) -> Next {
    match dave.pending.welcome {
        Some(message) if state.memory.processed_mls.of_kind(message.0.kind) != Some(message) =>
            Next::Ask {
            request: RequestView::ProcessMls { kind: message.0.kind, payload: message.1 },
            stage: DavePumpStage::Mls(DaveMlsMessageKind::Welcome),
            state,
        },
        _ => from_commit(dave, state),
    }
}

pub open spec fn from_commit(dave: DaveView, state: PumpState) -> Next {
    match dave.pending.commit {
        Some(message) if state.memory.processed_mls.of_kind(message.0.kind) != Some(message) =>
            Next::Ask {
            request: RequestView::ProcessMls { kind: message.0.kind, payload: message.1 },
            stage: DavePumpStage::Mls(DaveMlsMessageKind::Commit),
            state,
        },
        _ => from_messages(dave, state),
    }
}

/// What follows a message of a kind.
pub open spec fn from_message(dave: DaveView, kind: DaveMlsMessageKind, state: PumpState) -> Next {
    match kind {
        DaveMlsMessageKind::Welcome => from_commit(dave, state),
        DaveMlsMessageKind::Commit => from_messages(dave, state),
    }
}

/// The keys for sending, where transition zero is ready or one was executed.
pub open spec fn from_messages(dave: DaveView, state: PumpState) -> Next {
    if dave.transition_id == Some(0u16) && state.memory.transition_ready == Some(0u16) {
        Next::Ask {
            request: RequestView::ActivateStagedSender,
            stage: DavePumpStage::ZeroSender,
            state,
        }
    } else {
        from_zero_sender(dave, state)
    }
}

pub open spec fn from_zero_sender(dave: DaveView, state: PumpState) -> Next {
    if transition_executed(dave) {
        Next::Ask {
            request: RequestView::ActivateStagedSender,
            stage: DavePumpStage::LastSender,
            state,
        }
    } else {
        Next::Finished { state }
    }
}

/// The message that waits in the slot of a kind.
pub open spec fn slot(dave: DaveView, kind: DaveMlsMessageKind) -> Option<
    (crate::state::dave::DaveMlsMessageIdentity, Seq<u8>),
> {
    dave.pending.of_kind(kind)
}

/// With a message noted as seen.
pub open spec fn noted(dave: DaveView, kind: DaveMlsMessageKind, state: PumpState) -> PumpState {
    match slot(dave, kind) {
        Some(message) => state.with_memory(
            CoordinatorView {
                processed_mls: state.memory.processed_mls.with(message),
                ..state.memory
            },
        ),
        None => state,
    }
}

/// A message that the session took: the transition is ready.
pub open spec fn message_taken(
    dave: DaveView,
    kind: DaveMlsMessageKind,
    state: PumpState,
) -> Next {
    let seen = noted(dave, kind, state);
    let ready = seen.marked_ready(dave.transition_id, dave.protocol_version);
    if seen.opens_grace(dave.transition_id, dave.protocol_version) {
        Next::Ask {
            request: RequestView::OpenGrace(PassthroughMode::grace()),
            stage: DavePumpStage::MlsGrace(kind),
            state: ready,
        }
    } else {
        from_message(dave, kind, ready)
    }
}

/// The kind that the message in a slot says that it is of.
pub open spec fn said_kind(dave: DaveView, kind: DaveMlsMessageKind) -> DaveMlsMessageKind {
    match slot(dave, kind) {
        Some(message) => message.0.kind,
        None => kind,
    }
}

/// The error for a message that the session did not take.
pub open spec fn message_error(kind: DaveMlsMessageKind, reason: String) -> DaveError {
    match kind {
        DaveMlsMessageKind::Commit => DaveError::ProcessCommit(reason),
        DaveMlsMessageKind::Welcome => DaveError::ProcessWelcome(reason),
    }
}

/// A message that the session did not take: the gateway is told, and the group is set up
/// anew.
pub open spec fn message_refused(
    dave: DaveView,
    slot_kind: DaveMlsMessageKind,
    reason: String,
    state: PumpState,
) -> Next {
    let kind = said_kind(dave, slot_kind);
    let error = message_error(kind, reason);
    let seen = noted(dave, slot_kind, state);
    let told = match dave.transition_id {
        Some(transition_id) => seen.with_command(
            GatewayCommand::DaveMlsInvalidCommitWelcome(
                DaveInvalidCommitWelcomeCommand { transition_id },
            ),
        ),
        None => seen,
    };
    match dave.protocol_version {
        None => failed(error, told),
        Some(0) => if told.memory.passthrough == Some(PassthroughMode::Enabled) {
            failed(error, told)
        } else {
            Next::Ask {
                request: RequestView::SetPassthrough(PassthroughMode::Enabled),
                stage: DavePumpStage::RecoveryPassthrough { error },
                state: told.with_memory(
                    CoordinatorView {
                        passthrough: Some(PassthroughMode::Enabled),
                        ..told.memory
                    },
                ),
            }
        },
        Some(protocol_version) => Next::Ask {
            request: RequestView::ReplaceSession {
                user_id: told.memory.user_id,
                channel_id: told.memory.channel_id,
                protocol_version,
            },
            stage: DavePumpStage::RecoverySession { kind, error, protocol_version },
            state: told,
        },
    }
}

/// The new session gets the external sender that is known.
pub open spec fn recovery_session(
    dave: DaveView,
    kind: DaveMlsMessageKind,
    error: DaveError,
    state: PumpState,
) -> Next {
    match dave.external_sender {
        Some(sender) => Next::Ask {
            request: RequestView::SetExternalSender(sender),
            stage: DavePumpStage::RecoverySender { kind, error },
            state,
        },
        None => recovery_sender(dave, kind, error, state),
    }
}

/// And makes a key package.
pub open spec fn recovery_sender(
    dave: DaveView,
    kind: DaveMlsMessageKind,
    error: DaveError,
    state: PumpState,
) -> Next {
    match DaveKeyPackageScope::wanted(dave, state.memory.prepared_epoch) {
        Some(scope) => Next::Ask {
            request: RequestView::CreateKeyPackage,
            stage: DavePumpStage::RecoveryKeyPackage { kind, error, scope },
            state,
        },
        None => recovered(dave, error, state),
    }
}

/// The proposals so far are those of the old group.
pub open spec fn recovered(dave: DaveView, error: DaveError, state: PumpState) -> Next {
    failed(
        error,
        state.with_memory(
            CoordinatorView {
                processed_proposals: dave.proposals.len() as usize,
                ..state.memory
            },
        ),
    )
}

/// The error where the group could not be set up anew.
pub open spec fn recovery_failed(
    kind: DaveMlsMessageKind,
    error: DaveError,
    recovery: DaveError,
    state: PumpState,
) -> Next {
    failed(
        DaveError::RecoverInvalidGroup {
            operation: kind.label(),
            original: Box::new(error),
            recovery: Box::new(Error::Dave(recovery)),
        },
        state,
    )
}

/// After an answer to a request for the keys that wait.
pub open spec fn activated(found: bool, state: PumpState) -> PumpState {
    if found {
        state.with_memory(CoordinatorView { transition_ready: None, ..state.memory })
    } else {
        state
    }
}

pub open spec fn key_package_made(
    key_package: Vec<u8>,
    scope: DaveKeyPackageScope,
    state: PumpState,
) -> PumpState {
    state.with_command(GatewayCommand::DaveMlsKeyPackage { key_package }).with_memory(
        CoordinatorView { sent_key_package_for: Some(scope), ..state.memory },
    )
}

/// After proposals were handed over.
pub open spec fn proposals_seen(
    operation: &'static str,
    proposal_bytes: usize,
    answer: DaveAnswer,
    state: PumpState,
) -> PumpState {
    let counted = state.with_memory(
        CoordinatorView {
            processed_proposals: (state.memory.processed_proposals + 1) as usize,
            ..state.memory
        },
    );
    match answer {
        DaveAnswer::CommitWelcome { commit, welcome } => counted.with_command(
            GatewayCommand::DaveMlsCommitWelcome { commit, welcome },
        ).with_event(
            DaveEvent::ProposalsProcessed(
                DaveProposalsEvent {
                    operation,
                    proposal_bytes,
                    commit_sent: true,
                    welcome_sent: welcome is Some,
                },
            ),
        ),
        DaveAnswer::Failed(error) => counted.with_event(
            DaveEvent::ProposalsIgnored(
                DaveIgnoredProposalsEvent { operation, proposal_bytes, error },
            ),
        ),
        _ => counted.with_event(
            DaveEvent::ProposalsProcessed(
                DaveProposalsEvent {
                    operation,
                    proposal_bytes,
                    commit_sent: false,
                    welcome_sent: false,
                },
            ),
        ),
    }
}

/// What comes of an answer.
pub open spec fn resumed(
    dave: DaveView,
    roster: bool,
    stage: DavePumpStage,
    answer: DaveAnswer,
    state: PumpState,
) -> Next {
    match stage {
        DavePumpStage::Idle => Next::Finished { state },
        DavePumpStage::EpochSession(epoch) => match answer {
            DaveAnswer::UnsupportedVersion => failed(
                DaveError::InvalidProtocolVersion { version: epoch.protocol_version },
                state,
            ),
            DaveAnswer::Failed(reason) => failed(DaveError::CreateSession(reason), state),
            _ => from_epoch(
                dave,
                roster,
                state.with_memory(
                    CoordinatorView {
                        prepared_epoch: Some(epoch),
                        ..state.memory.session_replaced()
                    },
                ),
            ),
        },
        DavePumpStage::FirstSender => from_sender(
            dave,
            roster,
            activated(answer == DaveAnswer::Activated(true), state),
        ),
        DavePumpStage::PlainPassthrough => end_plain(dave, state),
        DavePumpStage::GracePassthrough => from_passthrough(dave, roster, state),
        DavePumpStage::ExternalSender => match answer {
            DaveAnswer::Failed(reason) => failed(DaveError::SetExternalSender(reason), state),
            _ => from_external_sender(
                dave,
                roster,
                state.with_memory(
                    CoordinatorView { external_sender_set: true, ..state.memory },
                ).with_event(
                    DaveEvent::ExternalSenderSet(
                        DaveKeyPackageEvent { protocol_version: dave.protocol_version },
                    ),
                ),
            ),
        },
        DavePumpStage::KeyPackage(scope) => match answer {
            DaveAnswer::KeyPackage(key_package) => from_key_package(
                dave,
                roster,
                key_package_made(key_package, scope, state).with_event(
                    DaveEvent::KeyPackageSent(
                        DaveKeyPackageEvent { protocol_version: Some(scope.version()) },
                    ),
                ),
            ),
            DaveAnswer::Failed(reason) => failed(DaveError::CreateKeyPackage(reason), state),
            _ => Next::Finished { state },
        },
        DavePumpStage::SecondSender => from_second_sender(
            dave,
            roster,
            activated(answer == DaveAnswer::Activated(true), state),
        ),
        DavePumpStage::Proposals { operation, proposal_bytes } => from_proposals(
            dave,
            proposals_seen(operation, proposal_bytes, answer, state),
        ),
        DavePumpStage::Mls(kind) => match answer {
            DaveAnswer::Failed(reason) => message_refused(dave, kind, reason, state),
            _ => message_taken(dave, kind, state),
        },
        DavePumpStage::MlsGrace(kind) => from_message(dave, kind, state),
        DavePumpStage::ZeroSender => from_zero_sender(dave, state),
        DavePumpStage::LastSender => Next::Finished {
            state: activated(answer == DaveAnswer::Activated(true), state),
        },
        DavePumpStage::RecoveryPassthrough { error } => failed(error, state),
        DavePumpStage::RecoverySession { kind, error, protocol_version } => match answer {
            DaveAnswer::UnsupportedVersion => recovery_failed(
                kind,
                error,
                DaveError::InvalidProtocolVersion { version: protocol_version },
                state,
            ),
            DaveAnswer::Failed(reason) => recovery_failed(
                kind,
                error,
                DaveError::CreateSession(reason),
                state,
            ),
            _ => recovery_session(
                dave,
                kind,
                error,
                state.with_memory(state.memory.session_replaced()),
            ),
        },
        DavePumpStage::RecoverySender { kind, error } => match answer {
            DaveAnswer::Failed(reason) => recovery_failed(
                kind,
                error,
                DaveError::SetExternalSender(reason),
                state,
            ),
            _ => recovery_sender(
                dave,
                kind,
                error,
                state.with_memory(CoordinatorView { external_sender_set: true, ..state.memory }),
            ),
        },
        DavePumpStage::RecoveryKeyPackage { kind, error, scope } => match answer {
            DaveAnswer::Failed(reason) => recovery_failed(
                kind,
                error,
                DaveError::CreateKeyPackage(reason),
                state,
            ),
            DaveAnswer::KeyPackage(key_package) => recovered(
                dave,
                error,
                key_package_made(key_package, scope, state),
            ),
            _ => Next::Finished { state },
        },
    }
}

/// What is under way.
pub struct DavePump {
    pub stage: DavePumpStage,
    pub roster_authoritative: bool,
    pub commands: Vec<GatewayCommand>,
    pub events: Vec<DaveEvent>,
}

/// What is to be done next.
pub enum DaveStep<'a> {
    Ask(DaveRequest<'a>),
    Finished,
}

/// The state as it stands between two steps.
pub open spec fn state_of(coordinator: DaveCoordinator, pump: DavePump) -> PumpState {
    PumpState { memory: coordinator@, commands: pump.commands@, events: pump.events@ }
}

/// Whether a step led to what it should.
pub open spec fn led_to(
    next: Next,
    step: Result<DaveStep, Error>,
    coordinator: DaveCoordinator,
    before: DavePump,
    after: DavePump,
) -> bool {
    let state = state_of(coordinator, after);
    &&& after.roster_authoritative == before.roster_authoritative
    &&& match next {
        Next::Ask { request, stage, state: wanted } => {
            &&& step matches Ok(DaveStep::Ask(asked)) && asked@ == request
            &&& after.stage == stage
            &&& state == wanted
        },
        Next::Finished { state: wanted } => {
            &&& step matches Ok(DaveStep::Finished)
            &&& after.stage == DavePumpStage::Idle
            &&& state == wanted
        },
        Next::Failed { error, state: wanted } => {
            &&& step matches Err(got) && got == error
            &&& after.stage == DavePumpStage::Idle
            &&& state == wanted
        },
    }
}

impl DavePump {
    pub fn new(roster_authoritative: bool) -> (pump: Self)
        ensures
            pump.stage == DavePumpStage::Idle,
            pump.roster_authoritative == roster_authoritative,
            pump.commands@ == Seq::<GatewayCommand>::empty(),
            pump.events@ == Seq::<DaveEvent>::empty(),
    {
        DavePump {
            stage: DavePumpStage::Idle,
            roster_authoritative,
            commands: Vec::new(),
            events: Vec::new(),
        }
    }

    /// Whether an answer is one to what was asked.
    pub fn takes(&self, answer: &DaveAnswer) -> (answers: bool)
        ensures
            answers == self.stage.takes(*answer),
    {
        let done = matches!(answer, DaveAnswer::Done);
        let refused = matches!(answer, DaveAnswer::Failed(_));
        match self.stage {
            DavePumpStage::Idle => false,
            DavePumpStage::EpochSession(_) | DavePumpStage::RecoverySession { .. } => done || refused
                || matches!(answer, DaveAnswer::UnsupportedVersion),
            DavePumpStage::FirstSender
            | DavePumpStage::SecondSender
            | DavePumpStage::ZeroSender
            | DavePumpStage::LastSender => matches!(answer, DaveAnswer::Activated(_)),
            DavePumpStage::PlainPassthrough
            | DavePumpStage::GracePassthrough
            | DavePumpStage::MlsGrace(_)
            | DavePumpStage::RecoveryPassthrough { .. } => done,
            DavePumpStage::ExternalSender
            | DavePumpStage::RecoverySender { .. }
            | DavePumpStage::Mls(_) => done || refused,
            DavePumpStage::KeyPackage(_) | DavePumpStage::RecoveryKeyPackage { .. } => refused
                || matches!(answer, DaveAnswer::KeyPackage(_)),
            DavePumpStage::Proposals { .. } => refused || matches!(
                answer,
                DaveAnswer::CommitWelcome { .. } | DaveAnswer::NoCommit
            ),
        }
    }

    pub(crate) fn ask<'a>(&mut self, stage: DavePumpStage, request: DaveRequest<'a>) -> (step: Result<
        DaveStep<'a>,
        Error,
    >)
        ensures
            step == Ok::<DaveStep<'a>, Error>(DaveStep::Ask(request)),
            *final(self) == (DavePump { stage, ..*old(self) }),
    {
        self.stage = stage;
        Ok(DaveStep::Ask(request))
    }

    pub(crate) fn finish<'a>(&mut self) -> (step: Result<DaveStep<'a>, Error>)
        ensures
            step == Ok::<DaveStep<'a>, Error>(DaveStep::Finished),
            *final(self) == (DavePump { stage: DavePumpStage::Idle, ..*old(self) }),
    {
        self.stage = DavePumpStage::Idle;
        Ok(DaveStep::Finished)
    }

    pub(crate) fn fail<'a>(&mut self, error: DaveError) -> (step: Result<DaveStep<'a>, Error>)
        ensures
            step == Err::<DaveStep<'a>, Error>(Error::Dave(error)),
            *final(self) == (DavePump { stage: DavePumpStage::Idle, ..*old(self) }),
    {
        self.stage = DavePumpStage::Idle;
        Err(Error::Dave(error))
    }
}

} // verus!
