//! What the protocol remembers between one look at the gateway's state and the next.

use super::epoch::{
    DaveGatewayStateEvent, DaveKeyPackageScope, DavePreparedEpoch, DaveTransitionEvent,
};
use super::pump::DaveEvent;
use crate::errors::DaveDecryptError;
use crate::gateway::{DaveTransitionReadyCommand, GatewayCommand};
use crate::state::dave::{DaveInternalState, DaveMlsSlots, DaveView, SlotsView};
use crate::time::Duration;
use vstd::prelude::*;

verus! {

/// For how long plain media is still taken once the protocol encrypts: ten seconds.
pub const DAVE_PLAINTEXT_RECEIVE_GRACE_NANOS: u128 = 10_000_000_000;

pub open spec fn plaintext_grace() -> Duration {
    Duration { nanos: DAVE_PLAINTEXT_RECEIVE_GRACE_NANOS }
}

/// Whether a session lets plain media through.
#[derive(Clone, Copy, Debug, PartialEq, Eq, Structural)]
pub enum PassthroughMode {
    Enabled,
    DisabledAfter(Duration),
}

impl PassthroughMode {
    /// Plain media for the grace, and none after it.
    pub open spec fn grace() -> PassthroughMode {
        PassthroughMode::DisabledAfter(plaintext_grace())
    }

    pub fn disabled_after_grace() -> (mode: PassthroughMode)
        ensures
            mode == Self::grace(),
    {
        PassthroughMode::DisabledAfter(Duration { nanos: DAVE_PLAINTEXT_RECEIVE_GRACE_NANOS })
    }
}

/// The mode that the session was set to last, where that is known.
#[derive(Clone, Copy, Debug, PartialEq, Eq, Structural)]
pub struct DavePassthroughController {
    pub last_applied: Option<PassthroughMode>,
}

impl DavePassthroughController {
    /// Sets a mode, and says whether the session has to be told.
    pub fn apply(&mut self, mode: PassthroughMode) -> (tell: bool)
        ensures
            tell == (old(self).last_applied != Some(mode)),
            final(self).last_applied == Some(mode),
    {
        if self.last_applied == Some(mode) {
            return false;
        }
        self.last_applied = Some(mode);
        true
    }

    /// The session is told, whatever it was set to.
    pub fn force_apply(&mut self, mode: PassthroughMode)
        ensures
            final(self).last_applied == Some(mode),
    {
        self.last_applied = Some(mode);
    }

    pub fn invalidate(&mut self)
        ensures
            final(self).last_applied is None,
    {
        self.last_applied = None;
    }
}

/// What is remembered, as a mathematical value.
pub struct CoordinatorView {
    pub user_id: u64,
    pub channel_id: u64,
    pub external_sender_set: bool,
    pub sent_key_package_for: Option<DaveKeyPackageScope>,
    pub processed_proposals: usize,
    pub processed_mls: SlotsView,
    pub transition_ready: Option<u16>,
    pub prepared_epoch: Option<DavePreparedEpoch>,
    pub last_gateway_state: Option<DaveGatewayStateEvent>,
    pub passthrough: Option<PassthroughMode>,
}

impl CoordinatorView {
    /// Nothing done yet.
    pub open spec fn initial(user_id: u64, channel_id: u64) -> CoordinatorView {
        CoordinatorView {
            user_id,
            channel_id,
            external_sender_set: false,
            sent_key_package_for: None,
            processed_proposals: 0,
            processed_mls: SlotsView::empty(),
            transition_ready: None,
            prepared_epoch: None,
            last_gateway_state: None,
            passthrough: None,
        }
    }

    /// With a new session.
    pub open spec fn session_replaced(self) -> CoordinatorView {
        CoordinatorView { passthrough: None, external_sender_set: false, ..self }
    }
}

/// What is remembered, what the gateway is to be told, and what is reported.
pub struct PumpState {
    pub memory: CoordinatorView,
    pub commands: Seq<GatewayCommand>,
    pub events: Seq<DaveEvent>,
}

impl PumpState {
    pub open spec fn with_memory(self, memory: CoordinatorView) -> PumpState {
        PumpState { memory, ..self }
    }

    pub open spec fn with_command(self, command: GatewayCommand) -> PumpState {
        PumpState { commands: self.commands.push(command), ..self }
    }

    pub open spec fn with_event(self, event: DaveEvent) -> PumpState {
        PumpState { events: self.events.push(event), ..self }
    }

    /// Whether readiness for a transition opens the grace for plain media: the first
    /// transition to encryption does, once.
    pub open spec fn opens_grace(self, transition_id: Option<u16>, version: Option<u16>) -> bool {
        &&& transition_id == Some(0u16)
        &&& self.memory.transition_ready != Some(0u16)
        &&& version matches Some(version) && version > 0
    }

    /// After readiness for a transition is noted, which is told to the gateway once, and
    /// not for transition zero.
    pub open spec fn marked_ready(self, transition_id: Option<u16>, version: Option<u16>) -> PumpState {
        match transition_id {
            None => self,
            Some(id) => if self.memory.transition_ready == Some(id) {
                self
            } else {
                let noted = CoordinatorView { transition_ready: Some(id), ..self.memory };
                if id == 0 {
                    self.with_memory(
                        CoordinatorView {
                            passthrough: if self.opens_grace(transition_id, version) {
                                Some(PassthroughMode::grace())
                            } else {
                                noted.passthrough
                            },
                            ..noted
                        },
                    )
                } else {
                    self.with_memory(noted).with_command(
                        GatewayCommand::DaveProtocolTransitionReady(
                            DaveTransitionReadyCommand { transition_id: id },
                        ),
                    ).with_event(
                        DaveEvent::TransitionReadySent(
                            DaveTransitionEvent {
                                transition_id: id,
                                protocol_version: match version {
                                    Some(version) => version,
                                    None => 0,
                                },
                            },
                        ),
                    )
                }
            },
        }
    }

    /// After the gateway's state is reported, where it is not what was reported last.
    pub open spec fn observed(self, state: DaveView) -> PumpState {
        let event = DaveGatewayStateEvent::of(state);
        if self.memory.last_gateway_state == Some(event) {
            self
        } else {
            self.with_memory(
                CoordinatorView { last_gateway_state: Some(event), ..self.memory },
            ).with_event(DaveEvent::GatewayState(event))
        }
    }
}

/// What the protocol remembers.
pub struct DaveCoordinator {
    pub user_id: u64,
    pub channel_id: u64,
    pub external_sender_set: bool,
    pub sent_key_package_for: Option<DaveKeyPackageScope>,
    pub processed_proposals: usize,
    pub processed_mls: DaveMlsSlots,
    pub transition_ready: Option<u16>,
    pub prepared_epoch: Option<DavePreparedEpoch>,
    pub last_gateway_state: Option<DaveGatewayStateEvent>,
    pub passthrough: DavePassthroughController,
}

impl View for DaveCoordinator {
    type V = CoordinatorView;

    open spec fn view(&self) -> CoordinatorView {
        CoordinatorView {
            user_id: self.user_id,
            channel_id: self.channel_id,
            external_sender_set: self.external_sender_set,
            sent_key_package_for: self.sent_key_package_for,
            processed_proposals: self.processed_proposals,
            processed_mls: self.processed_mls@,
            transition_ready: self.transition_ready,
            prepared_epoch: self.prepared_epoch,
            last_gateway_state: self.last_gateway_state,
            passthrough: self.passthrough.last_applied,
        }
    }
}

/// The user whose frame is decrypted, who has to be known.
pub fn decrypting_user(user_id: Option<u64>) -> (user: Result<u64, DaveDecryptError>)
    ensures
        user == (match user_id {
            Some(user_id) => Ok::<u64, DaveDecryptError>(user_id),
            None => Err::<u64, DaveDecryptError>(DaveDecryptError::MissingUser),
        }),
{
    match user_id {
        Some(user_id) => Ok(user_id),
        None => Err(DaveDecryptError::MissingUser),
    }
}

impl DaveCoordinator {
    pub fn new(user_id: u64, channel_id: u64) -> (coordinator: Self)
        ensures
            coordinator@ == CoordinatorView::initial(user_id, channel_id),
    {
        DaveCoordinator {
            user_id,
            channel_id,
            external_sender_set: false,
            sent_key_package_for: None,
            processed_proposals: 0,
            processed_mls: DaveMlsSlots::new(),
            transition_ready: None,
            prepared_epoch: None,
            last_gateway_state: None,
            passthrough: DavePassthroughController { last_applied: None },
        }
    }

    pub fn transition_ready(&self) -> (transition: Option<u16>)
        ensures
            transition == self@.transition_ready,
    {
        self.transition_ready
    }

    /// Sets a passthrough mode, and says whether the session has to be told.
    pub fn set_passthrough_mode(&mut self, mode: PassthroughMode) -> (tell: bool)
        ensures
            tell == (old(self)@.passthrough != Some(mode)),
            final(self)@ == (CoordinatorView { passthrough: Some(mode), ..old(self)@ }),
    {
        self.passthrough.apply(mode)
    }

    /// Opens the grace for plain media. The session is told to let it through, and to stop
    /// once the grace is over.
    pub fn allow_plaintext_receive_grace(&mut self)
        ensures
            final(self)@ == (CoordinatorView {
                passthrough: Some(PassthroughMode::grace()),
                ..old(self)@
            }),
    {
        self.passthrough.force_apply(PassthroughMode::disabled_after_grace());
    }

    /// There is a new session, of which nothing is known.
    pub fn replace_session(&mut self)
        ensures
            final(self)@ == old(self)@.session_replaced(),
    {
        self.passthrough.invalidate();
        self.external_sender_set = false;
    }

    /// Reports the gateway's state, where it is not what was reported last.
    pub fn observe_gateway_state(&mut self, events: &mut Vec<DaveEvent>, dave: &DaveInternalState)
        ensures
            ({
                let before = PumpState {
                    memory: old(self)@,
                    commands: seq![],
                    events: old(events)@,
                };
                let after = before.observed(dave@);
                final(self)@ == after.memory && final(events)@ == after.events
            }),
    {
        let event = DaveGatewayStateEvent::from_state(dave);
        if self.last_gateway_state == Some(event) {
            return;
        }
        self.last_gateway_state = Some(event);
        events.push(DaveEvent::GatewayState(event));
    }

    /// Notes that a transition can be executed. The gateway is told once, and not of
    /// transition zero. Says whether the grace for plain media opens.
    pub fn mark_transition_ready(
        &mut self,
        commands: &mut Vec<GatewayCommand>,
        events: &mut Vec<DaveEvent>,
        transition_id: Option<u16>,
        protocol_version: Option<u16>,
    ) -> (grace: bool)
        ensures
            ({
                let before = PumpState {
                    memory: old(self)@,
                    commands: old(commands)@,
                    events: old(events)@,
                };
                let after = before.marked_ready(transition_id, protocol_version);
                &&& final(self)@ == after.memory
                &&& final(commands)@ == after.commands
                &&& final(events)@ == after.events
                &&& grace == before.opens_grace(transition_id, protocol_version)
            }),
    {
        let transition_id: u16 = match transition_id {
            Some(id) => id,
            None => {
                return false;
            },
        };
        if self.transition_ready == Some(transition_id) {
            return false;
        }
        let protocol_version: u16 = match protocol_version {
            Some(version) => version,
            None => 0,
        };
        self.transition_ready = Some(transition_id);
        if transition_id == 0 {
            if protocol_version > 0 {
                self.allow_plaintext_receive_grace();
                return true;
            }
            return false;
        }
        commands.push(
            GatewayCommand::DaveProtocolTransitionReady(
                DaveTransitionReadyCommand { transition_id },
            ),
        );
        events.push(
            DaveEvent::TransitionReadySent(DaveTransitionEvent { transition_id, protocol_version }),
        );
        false
    }
}

/// Readiness for a transition is told to the gateway at most once.
pub proof fn law_readiness_is_told_once(
    state: PumpState,
    transition_id: Option<u16>,
    version: Option<u16>,
)
    ensures
        state.marked_ready(transition_id, version).marked_ready(transition_id, version)
            == state.marked_ready(transition_id, version),
        !state.marked_ready(transition_id, version).opens_grace(transition_id, version),
{
}

} // verus!
