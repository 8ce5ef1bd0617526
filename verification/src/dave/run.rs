//! The steps of one look at the gateway's state.

use super::coordinator::{CoordinatorView, DaveCoordinator, PassthroughMode};
use super::epoch::{
    DaveIgnoredProposalsEvent, DaveKeyPackageEvent, DaveKeyPackageScope, DavePreparedEpoch, DaveProposalsEvent,
};
use super::pump::{
    end_plain, from_commit, from_epoch, from_external_sender, from_key_package, from_message,
    from_messages, from_passthrough, from_proposals, from_second_sender, from_sender, from_start,
    from_welcome, from_zero_sender, led_to, message_refused, message_taken, proposals_seen, recovered,
    recovery_failed, recovery_sender, recovery_session, resumed, state_of, transition_executed,
    DaveAnswer, DaveEvent, DavePump, DavePumpStage, DaveRequest, DaveStep,
};
use super::status::DaveProposalsOperation;
use crate::errors::{DaveError, Error};
use crate::gateway::{DaveInvalidCommitWelcomeCommand, GatewayCommand};
use crate::state::dave::{is_encrypting, DaveInternalState, DaveMlsMessageKind};
use vstd::prelude::*;

verus! {

fn executed(dave: &DaveInternalState) -> (answer: bool)
    ensures
        answer == transition_executed(dave@),
{
    dave.transition_id().is_none() && is_encrypting(dave.active_send_protocol_version())
}

impl DaveCoordinator {
    /// Begins a look at the gateway's state: the first thing that the session is asked, where
    /// there is any.
    pub fn pump<'a>(
        &mut self,
        pump: &mut DavePump,
        dave: &'a DaveInternalState,
        session_ready: bool,
    ) -> (step: Result<DaveStep<'a>, Error>)
        ensures
            led_to(
                from_start(dave@, session_ready, old(pump).roster_authoritative, state_of(*old(self), *old(pump))),
                step,
                *final(self),
                *old(pump),
                *final(pump),
            ),
    {
        self.observe_gateway_state(&mut pump.events, dave);
        let prepared = DavePreparedEpoch::from_state(dave);
        if self.prepared_epoch == prepared {
            return self.run_epoch(pump, dave);
        }
        let epoch = match prepared {
            Some(epoch) => epoch,
            None => {
                self.prepared_epoch = None;
                return self.run_epoch(pump, dave);
            },
        };
        self.sent_key_package_for = None;
        self.processed_proposals = 0;
        self.processed_mls.clear();
        if epoch.epoch == 1 && !session_ready {
            self.transition_ready = None;
            return pump.ask(
                DavePumpStage::EpochSession(epoch),
                DaveRequest::ReplaceSession {
                    user_id: self.user_id,
                    channel_id: self.channel_id,
                    protocol_version: epoch.protocol_version,
                },
            );
        }
        self.prepared_epoch = Some(epoch);
        self.run_epoch(pump, dave)
    }

    fn run_epoch<'a>(
        &mut self,
        pump: &mut DavePump,
        dave: &'a DaveInternalState,
    ) -> (step: Result<DaveStep<'a>, Error>)
        ensures
            led_to(
                from_epoch(dave@, old(pump).roster_authoritative, state_of(*old(self), *old(pump))),
                step,
                *final(self),
                *old(pump),
                *final(pump),
            ),
    {
        if executed(dave) {
            return pump.ask(DavePumpStage::FirstSender, DaveRequest::ActivateStagedSender);
        }
        self.run_sender(pump, dave)
    }

    fn run_sender<'a>(
        &mut self,
        pump: &mut DavePump,
        dave: &'a DaveInternalState,
    ) -> (step: Result<DaveStep<'a>, Error>)
        ensures
            led_to(
                from_sender(dave@, old(pump).roster_authoritative, state_of(*old(self), *old(pump))),
                step,
                *final(self),
                *old(pump),
                *final(pump),
            ),
    {
        if !is_encrypting(dave.protocol_version()) {
            if self.set_passthrough_mode(PassthroughMode::Enabled) {
                return pump.ask(
                    DavePumpStage::PlainPassthrough,
                    DaveRequest::SetPassthrough(PassthroughMode::Enabled),
                );
            }
            return self.run_end_plain(pump, dave);
        }
        let mode = PassthroughMode::disabled_after_grace();
        if self.set_passthrough_mode(mode) {
            return pump.ask(
                DavePumpStage::GracePassthrough,
                DaveRequest::SetPassthrough(mode),
            );
        }
        self.run_passthrough(pump, dave)
    }

    fn run_end_plain<'a>(
        &mut self,
        pump: &mut DavePump,
        dave: &'a DaveInternalState,
    ) -> (step: Result<DaveStep<'a>, Error>)
        ensures
            led_to(
                end_plain(dave@, state_of(*old(self), *old(pump))),
                step,
                *final(self),
                *old(pump),
                *final(pump),
            ),
    {
        let _ = self.mark_transition_ready(
            &mut pump.commands,
            &mut pump.events,
            dave.transition_id(),
            dave.protocol_version(),
        );
        pump.finish()
    }

    fn run_passthrough<'a>(
        &mut self,
        pump: &mut DavePump,
        dave: &'a DaveInternalState,
    ) -> (step: Result<DaveStep<'a>, Error>)
        ensures
            led_to(
                from_passthrough(dave@, old(pump).roster_authoritative, state_of(*old(self), *old(pump))),
                step,
                *final(self),
                *old(pump),
                *final(pump),
            ),
    {
        if !self.external_sender_set {
            if let Some(sender) = &dave.external_sender {
                return pump.ask(
                    DavePumpStage::ExternalSender,
                    DaveRequest::SetExternalSender(sender.as_slice()),
                );
            }
        }
        self.run_external_sender(pump, dave)
    }

    fn run_external_sender<'a>(
        &mut self,
        pump: &mut DavePump,
        dave: &'a DaveInternalState,
    ) -> (step: Result<DaveStep<'a>, Error>)
        ensures
            led_to(
                from_external_sender(dave@, old(pump).roster_authoritative, state_of(*old(self), *old(pump))),
                step,
                *final(self),
                *old(pump),
                *final(pump),
            ),
    {
        let scope = DaveKeyPackageScope::from_state(dave, self.prepared_epoch);
        if let Some(scope) = scope {
            if self.sent_key_package_for != Some(scope) {
                return pump.ask(DavePumpStage::KeyPackage(scope), DaveRequest::CreateKeyPackage);
            }
        }
        self.run_key_package(pump, dave)
    }

    fn run_key_package<'a>(
        &mut self,
        pump: &mut DavePump,
        dave: &'a DaveInternalState,
    ) -> (step: Result<DaveStep<'a>, Error>)
        ensures
            led_to(
                from_key_package(dave@, old(pump).roster_authoritative, state_of(*old(self), *old(pump))),
                step,
                *final(self),
                *old(pump),
                *final(pump),
            ),
    {
        if !self.external_sender_set {
            return pump.finish();
        }
        if executed(dave) {
            return pump.ask(DavePumpStage::SecondSender, DaveRequest::ActivateStagedSender);
        }
        self.run_second_sender(pump, dave)
    }

    fn run_second_sender<'a>(
        &mut self,
        pump: &mut DavePump,
        dave: &'a DaveInternalState,
    ) -> (step: Result<DaveStep<'a>, Error>)
        ensures
            led_to(
                from_second_sender(dave@, old(pump).roster_authoritative, state_of(*old(self), *old(pump))),
                step,
                *final(self),
                *old(pump),
                *final(pump),
            ),
    {
        assert(dave@.proposals.len() == dave.proposals@.len());
        if self.processed_proposals > dave.proposals.len() {
            self.processed_proposals = 0;
        }
        if dave.proposals.len() > self.processed_proposals && !pump.roster_authoritative {
            return pump.finish();
        }
        self.run_proposals(pump, dave)
    }

    fn run_proposals<'a>(
        &mut self,
        pump: &mut DavePump,
        dave: &'a DaveInternalState,
    ) -> (step: Result<DaveStep<'a>, Error>)
        ensures
            led_to(
                from_proposals(dave@, state_of(*old(self), *old(pump))),
                step,
                *final(self),
                *old(pump),
                *final(pump),
            ),
    {
        let index: usize = self.processed_proposals;
        if index >= dave.proposals.len() {
            return self.run_welcome(pump, dave);
        }
        assert(dave@.proposals[index as int] == dave.proposals@[index as int]@);
        match DaveProposalsOperation::parse(dave.proposals[index].as_slice()) {
            Ok((operation, proposals)) => pump.ask(
                DavePumpStage::Proposals {
                    operation: operation.label,
                    proposal_bytes: proposals.len(),
                },
                DaveRequest::ProcessProposals { operation: operation.kind, proposals },
            ),
            Err(error) => pump.fail(error),
        }
    }

    fn run_welcome<'a>(
        &mut self,
        pump: &mut DavePump,
        dave: &'a DaveInternalState,
    ) -> (step: Result<DaveStep<'a>, Error>)
        ensures
            led_to(
                from_welcome(dave@, state_of(*old(self), *old(pump))),
                step,
                *final(self),
                *old(pump),
                *final(pump),
            ),
    {
        if let Some(message) = dave.pending_mls.welcome() {
            let seen = match self.processed_mls.get(message.identity.kind) {
                Some(seen) => seen.same_as(message),
                None => false,
            };
            if !seen {
                return pump.ask(
                    DavePumpStage::Mls(DaveMlsMessageKind::Welcome),
                    DaveRequest::ProcessMls {
                        kind: message.identity.kind,
                        payload: message.payload.as_slice(),
                    },
                );
            }
        }
        self.run_commit(pump, dave)
    }

    fn run_commit<'a>(
        &mut self,
        pump: &mut DavePump,
        dave: &'a DaveInternalState,
    ) -> (step: Result<DaveStep<'a>, Error>)
        ensures
            led_to(
                from_commit(dave@, state_of(*old(self), *old(pump))),
                step,
                *final(self),
                *old(pump),
                *final(pump),
            ),
    {
        if let Some(message) = dave.pending_mls.commit() {
            let seen = match self.processed_mls.get(message.identity.kind) {
                Some(seen) => seen.same_as(message),
                None => false,
            };
            if !seen {
                return pump.ask(
                    DavePumpStage::Mls(DaveMlsMessageKind::Commit),
                    DaveRequest::ProcessMls {
                        kind: message.identity.kind,
                        payload: message.payload.as_slice(),
                    },
                );
            }
        }
        self.run_messages(pump, dave)
    }

    fn run_message<'a>(
        &mut self,
        pump: &mut DavePump,
        dave: &'a DaveInternalState,
        kind: DaveMlsMessageKind,
    ) -> (step: Result<DaveStep<'a>, Error>)
        ensures
            led_to(
                from_message(dave@, kind, state_of(*old(self), *old(pump))),
                step,
                *final(self),
                *old(pump),
                *final(pump),
            ),
    {
        match kind {
            DaveMlsMessageKind::Welcome => self.run_commit(pump, dave),
            DaveMlsMessageKind::Commit => self.run_messages(pump, dave),
        }
    }

    fn run_messages<'a>(
        &mut self,
        pump: &mut DavePump,
        dave: &'a DaveInternalState,
    ) -> (step: Result<DaveStep<'a>, Error>)
        ensures
            led_to(
                from_messages(dave@, state_of(*old(self), *old(pump))),
                step,
                *final(self),
                *old(pump),
                *final(pump),
            ),
    {
        if dave.transition_zero_media_ready(self.transition_ready) {
            return pump.ask(DavePumpStage::ZeroSender, DaveRequest::ActivateStagedSender);
        }
        self.run_zero_sender(pump, dave)
    }

    fn run_zero_sender<'a>(
        &mut self,
        pump: &mut DavePump,
        dave: &'a DaveInternalState,
    ) -> (step: Result<DaveStep<'a>, Error>)
        ensures
            led_to(
                from_zero_sender(dave@, state_of(*old(self), *old(pump))),
                step,
                *final(self),
                *old(pump),
                *final(pump),
            ),
    {
        if executed(dave) {
            return pump.ask(DavePumpStage::LastSender, DaveRequest::ActivateStagedSender);
        }
        pump.finish()
    }

    fn run_message_taken<'a>(
        &mut self,
        pump: &mut DavePump,
        dave: &'a DaveInternalState,
        kind: DaveMlsMessageKind,
    ) -> (step: Result<DaveStep<'a>, Error>)
        ensures
            led_to(
                message_taken(dave@, kind, state_of(*old(self), *old(pump))),
                step,
                *final(self),
                *old(pump),
                *final(pump),
            ),
    {
        if let Some(message) = dave.pending_mls.get(kind) {
            self.processed_mls.set_message(message.copy());
        }
        let grace = self.mark_transition_ready(
            &mut pump.commands,
            &mut pump.events,
            dave.transition_id(),
            dave.protocol_version(),
        );
        if grace {
            return pump.ask(
                DavePumpStage::MlsGrace(kind),
                DaveRequest::OpenGrace(PassthroughMode::disabled_after_grace()),
            );
        }
        self.run_message(pump, dave, kind)
    }

    fn run_message_refused<'a>(
        &mut self,
        pump: &mut DavePump,
        dave: &'a DaveInternalState,
        slot_kind: DaveMlsMessageKind,
        reason: String,
    ) -> (step: Result<DaveStep<'a>, Error>)
        ensures
            led_to(
                message_refused(dave@, slot_kind, reason, state_of(*old(self), *old(pump))),
                step,
                *final(self),
                *old(pump),
                *final(pump),
            ),
    {
        let mut kind = slot_kind;
        if let Some(message) = dave.pending_mls.get(slot_kind) {
            kind = message.identity.kind;
            self.processed_mls.set_message(message.copy());
        }
        let error = match kind {
            DaveMlsMessageKind::Commit => DaveError::ProcessCommit(reason),
            DaveMlsMessageKind::Welcome => DaveError::ProcessWelcome(reason),
        };
        if let Some(transition_id) = dave.transition_id() {
            pump.commands.push(
                GatewayCommand::DaveMlsInvalidCommitWelcome(
                    DaveInvalidCommitWelcomeCommand { transition_id },
                ),
            );
        }
        let protocol_version: u16 = match dave.protocol_version() {
            Some(version) => version,
            None => {
                return pump.fail(error);
            },
        };
        if protocol_version == 0 {
            if self.set_passthrough_mode(PassthroughMode::Enabled) {
                return pump.ask(
                    DavePumpStage::RecoveryPassthrough { error },
                    DaveRequest::SetPassthrough(PassthroughMode::Enabled),
                );
            }
            return pump.fail(error);
        }
        pump.ask(
            DavePumpStage::RecoverySession { kind, error, protocol_version },
            DaveRequest::ReplaceSession {
                user_id: self.user_id,
                channel_id: self.channel_id,
                protocol_version,
            },
        )
    }

    fn recover_session<'a>(
        &mut self,
        pump: &mut DavePump,
        dave: &'a DaveInternalState,
        kind: DaveMlsMessageKind,
        error: DaveError,
    ) -> (step: Result<DaveStep<'a>, Error>)
        ensures
            led_to(
                recovery_session(dave@, kind, error, state_of(*old(self), *old(pump))),
                step,
                *final(self),
                *old(pump),
                *final(pump),
            ),
    {
        if let Some(sender) = &dave.external_sender {
            return pump.ask(
                DavePumpStage::RecoverySender { kind, error },
                DaveRequest::SetExternalSender(sender.as_slice()),
            );
        }
        self.recover_sender(pump, dave, kind, error)
    }

    fn recover_sender<'a>(
        &mut self,
        pump: &mut DavePump,
        dave: &'a DaveInternalState,
        kind: DaveMlsMessageKind,
        error: DaveError,
    ) -> (step: Result<DaveStep<'a>, Error>)
        ensures
            led_to(
                recovery_sender(dave@, kind, error, state_of(*old(self), *old(pump))),
                step,
                *final(self),
                *old(pump),
                *final(pump),
            ),
    {
        match DaveKeyPackageScope::from_state(dave, self.prepared_epoch) {
            Some(scope) => pump.ask(
                DavePumpStage::RecoveryKeyPackage { kind, error, scope },
                DaveRequest::CreateKeyPackage,
            ),
            None => self.run_recovered(pump, dave, error),
        }
    }

    fn run_recovered<'a>(
        &mut self,
        pump: &mut DavePump,
        dave: &'a DaveInternalState,
        error: DaveError,
    ) -> (step: Result<DaveStep<'a>, Error>)
        ensures
            led_to(
                recovered(dave@, error, state_of(*old(self), *old(pump))),
                step,
                *final(self),
                *old(pump),
                *final(pump),
            ),
    {
        assert(dave@.proposals.len() == dave.proposals@.len());
        self.processed_proposals = dave.proposals.len();
        pump.fail(error)
    }

    fn recovery_error<'a>(
        &mut self,
        pump: &mut DavePump,
        kind: DaveMlsMessageKind,
        error: DaveError,
        recovery: DaveError,
    ) -> (step: Result<DaveStep<'a>, Error>)
        ensures
            led_to(
                recovery_failed(kind, error, recovery, state_of(*old(self), *old(pump))),
                step,
                *final(self),
                *old(pump),
                *final(pump),
            ),
    {
        pump.stage = DavePumpStage::Idle;
        Err(DaveError::recover_invalid_group(kind.operation_label(), error, Error::Dave(recovery)))
    }

    /// Goes on with the session's answer: what the session is asked next, where there is
    /// anything left.
    pub fn resume<'a>(
        &mut self,
        pump: &mut DavePump,
        dave: &'a DaveInternalState,
        answer: DaveAnswer,
    ) -> (step: Result<DaveStep<'a>, Error>)
        requires
            old(pump).stage.takes(answer),
            old(pump).stage is Proposals ==> old(self)@.processed_proposals < usize::MAX,
        ensures
            led_to(
                resumed(dave@, old(pump).roster_authoritative, old(pump).stage, answer, state_of(*old(self), *old(pump))),
                step,
                *final(self),
                *old(pump),
                *final(pump),
            ),
    {
        let mut stage = DavePumpStage::Idle;
        std::mem::swap(&mut stage, &mut pump.stage);
        match stage {
            DavePumpStage::Idle => pump.finish(),
            DavePumpStage::EpochSession(epoch) => self.resume_epoch(pump, dave, epoch, answer),
            DavePumpStage::FirstSender => {
                self.note_activation(&answer);
                self.run_sender(pump, dave)
            },
            DavePumpStage::PlainPassthrough => self.run_end_plain(pump, dave),
            DavePumpStage::GracePassthrough => self.run_passthrough(pump, dave),
            DavePumpStage::ExternalSender => match answer {
                DaveAnswer::Failed(reason) => pump.fail(DaveError::SetExternalSender(reason)),
                _ => {
                    self.external_sender_set = true;
                    pump.events.push(
                        DaveEvent::ExternalSenderSet(
                            DaveKeyPackageEvent { protocol_version: dave.protocol_version() },
                        ),
                    );
                    self.run_external_sender(pump, dave)
                },
            },
            DavePumpStage::KeyPackage(scope) => match answer {
                DaveAnswer::KeyPackage(key_package) => {
                    self.note_key_package(pump, key_package, scope);
                    pump.events.push(
                        DaveEvent::KeyPackageSent(
                            DaveKeyPackageEvent { protocol_version: Some(scope.protocol_version()) },
                        ),
                    );
                    self.run_key_package(pump, dave)
                },
                DaveAnswer::Failed(reason) => pump.fail(DaveError::CreateKeyPackage(reason)),
                _ => pump.finish(),
            },
            DavePumpStage::SecondSender => {
                self.note_activation(&answer);
                self.run_second_sender(pump, dave)
            },
            DavePumpStage::Proposals { operation, proposal_bytes } => {
                self.note_proposals(pump, operation, proposal_bytes, answer);
                self.run_proposals(pump, dave)
            },
            DavePumpStage::Mls(kind) => match answer {
                DaveAnswer::Failed(reason) => self.run_message_refused(pump, dave, kind, reason),
                _ => self.run_message_taken(pump, dave, kind),
            },
            DavePumpStage::MlsGrace(kind) => self.run_message(pump, dave, kind),
            DavePumpStage::ZeroSender => self.run_zero_sender(pump, dave),
            DavePumpStage::LastSender => {
                self.note_activation(&answer);
                pump.finish()
            },
            DavePumpStage::RecoveryPassthrough { error } => pump.fail(error),
            DavePumpStage::RecoverySession { kind, error, protocol_version } => match answer {
                DaveAnswer::UnsupportedVersion => self.recovery_error(
                    pump,
                    kind,
                    error,
                    DaveError::InvalidProtocolVersion { version: protocol_version },
                ),
                DaveAnswer::Failed(reason) => self.recovery_error(
                    pump,
                    kind,
                    error,
                    DaveError::CreateSession(reason),
                ),
                _ => {
                    self.replace_session();
                    self.recover_session(pump, dave, kind, error)
                },
            },
            DavePumpStage::RecoverySender { kind, error } => match answer {
                DaveAnswer::Failed(reason) => self.recovery_error(
                    pump,
                    kind,
                    error,
                    DaveError::SetExternalSender(reason),
                ),
                _ => {
                    self.external_sender_set = true;
                    self.recover_sender(pump, dave, kind, error)
                },
            },
            DavePumpStage::RecoveryKeyPackage { kind, error, scope } => match answer {
                DaveAnswer::Failed(reason) => self.recovery_error(
                    pump,
                    kind,
                    error,
                    DaveError::CreateKeyPackage(reason),
                ),
                DaveAnswer::KeyPackage(key_package) => {
                    self.note_key_package(pump, key_package, scope);
                    self.run_recovered(pump, dave, error)
                },
                _ => pump.finish(),
            },
        }
    }

    fn resume_epoch<'a>(
        &mut self,
        pump: &mut DavePump,
        dave: &'a DaveInternalState,
        epoch: DavePreparedEpoch,
        answer: DaveAnswer,
    ) -> (step: Result<DaveStep<'a>, Error>)
        ensures
            led_to(
                resumed(dave@, old(pump).roster_authoritative, DavePumpStage::EpochSession(epoch), answer, state_of(*old(self), *old(pump))),
                step,
                *final(self),
                *old(pump),
                *final(pump),
            ),
    {
        match answer {
            DaveAnswer::UnsupportedVersion => pump.fail(
                DaveError::InvalidProtocolVersion { version: epoch.protocol_version },
            ),
            DaveAnswer::Failed(reason) => pump.fail(DaveError::CreateSession(reason)),
            _ => {
                self.replace_session();
                self.prepared_epoch = Some(epoch);
                self.run_epoch(pump, dave)
            },
        }
    }

    fn note_activation(&mut self, answer: &DaveAnswer)
        ensures
            final(self)@ == (if *answer == DaveAnswer::Activated(true) {
                CoordinatorView { transition_ready: None, ..old(self)@ }
            } else {
                old(self)@
            }),
    {
        if let DaveAnswer::Activated(found) = answer {
            if *found {
                self.transition_ready = None;
            }
        }
    }

    fn note_key_package(
        &mut self,
        pump: &mut DavePump,
        key_package: Vec<u8>,
        scope: DaveKeyPackageScope,
    )
        ensures
            final(self)@ == (CoordinatorView {
                sent_key_package_for: Some(scope),
                ..old(self)@
            }),
            final(pump).commands@ == old(pump).commands@.push(
                GatewayCommand::DaveMlsKeyPackage { key_package },
            ),
            final(pump).events == old(pump).events,
            final(pump).stage == old(pump).stage,
            final(pump).roster_authoritative == old(pump).roster_authoritative,
    {
        pump.commands.push(GatewayCommand::DaveMlsKeyPackage { key_package });
        self.sent_key_package_for = Some(scope);
    }

    fn note_proposals(
        &mut self,
        pump: &mut DavePump,
        operation: &'static str,
        proposal_bytes: usize,
        answer: DaveAnswer,
    )
        requires
            old(self)@.processed_proposals < usize::MAX,
        ensures
            state_of(*final(self), *final(pump)) == proposals_seen(
                operation,
                proposal_bytes,
                answer,
                state_of(*old(self), *old(pump)),
            ),
            final(pump).stage == old(pump).stage,
            final(pump).roster_authoritative == old(pump).roster_authoritative,
    {
        self.processed_proposals = self.processed_proposals + 1;
        match answer {
            DaveAnswer::CommitWelcome { commit, welcome } => {
                let welcome_sent = welcome.is_some();
                pump.commands.push(GatewayCommand::DaveMlsCommitWelcome { commit, welcome });
                pump.events.push(
                    DaveEvent::ProposalsProcessed(
                        DaveProposalsEvent {
                            operation,
                            proposal_bytes,
                            commit_sent: true,
                            welcome_sent,
                        },
                    ),
                );
            },
            DaveAnswer::Failed(error) => {
                pump.events.push(
                    DaveEvent::ProposalsIgnored(
                        DaveIgnoredProposalsEvent { operation, proposal_bytes, error },
                    ),
                );
            },
            _ => {
                pump.events.push(
                    DaveEvent::ProposalsProcessed(
                        DaveProposalsEvent {
                            operation,
                            proposal_bytes,
                            commit_sent: false,
                            welcome_sent: false,
                        },
                    ),
                );
            },
        }
    }
}

} // verus!
