//! What a connection that is up does about what happens.

use super::frames::FrameReceives;
use super::heartbeat::{ack_timeout, Heartbeat};
use super::pipeline::ReceivePipeline;
use super::playout::{MediaGate, PlayoutSlot};
use super::receive::LowLevelReceiveKind;
use super::send::{agreed_video, no_randomness, SendPipeline};
use super::stream::{FrameStream, FrameStreams};
use super::waits::{told_expired, told_ready, MediaReadyAnswer, MediaReadyWait, MediaReadyWaits};
use crate::dave::coordinator::{CoordinatorView, PassthroughMode};
use crate::dave::{DaveCoordinator, DaveMediaStatus};
use crate::errors::{BackpressureError, Error, ProtocolError};
use crate::gateway::command::{GatewayCommand, SpeakingCommand};
use crate::gateway::event::{
    binary_handled, handle_text_event, handle_voice_binary_event, handled, EffectsView,
    GatewayEventEffects, GatewayHeartbeatAckState, GatewayTextEvent, Handled,
};
use crate::gateway::value::SpeakingFlags;
use crate::media::{FrameRaw, HeartbeatNonce, RtpSizeNonceSuffix, TransportCrypto};
use crate::queue::{due_by, without};
use crate::roster::source_set;
use crate::state::connection::StateView;
use crate::state::session::SessionDescription;
use crate::state::ConnectionInternalState;
use crate::time::{earlier_deadline, earlier_of, Duration, Instant};
use vstd::prelude::*;

verus! {

/// What the session says of itself: whether it can decrypt, and whether it can encrypt.
#[derive(Clone, Copy, Debug, PartialEq, Eq, Structural)]
pub struct DaveReadiness {
    pub session_ready: bool,
    pub send_ready: bool,
}

/// Whether media can be sent and received.
pub open spec fn media_status(
    state: StateView,
    transition_ready: Option<u16>,
    session: DaveReadiness,
) -> DaveMediaStatus {
    DaveMediaStatus {
        requires_dave: state.dave.requires_dave(),
        active_send_protocol_version: state.dave.active_send,
        active_receive_protocol_version: state.dave.active_receive,
        media_ready: state.dave.requires_dave() ==> session.session_ready && session.send_ready
            && state.dave.settled(),
        session_ready: session.session_ready,
        send_ready: session.send_ready,
        transition_ready,
        protocol_version: state.dave.protocol_version,
        transition_id: state.dave.transition_id,
        mls: state.dave.shown_mls(),
    }
}

/// What is asked of a connection.
pub enum ConnectionCommand {
    SetSpeaking { flags: SpeakingFlags, delay: u32 },
    RecvUdpPacket { kind: LowLevelReceiveKind, max_len: usize },
    RecvVoiceFrame { max_len: usize, max_wait: Option<Duration> },
    OpenFrameStream { max_len: usize },
    DaveMediaStatus,
    WaitUntilMediaReady { max_wait: Duration },
    Close,
}

/// What is done about it. Who waits is known by an id from then on.
pub enum CommandOutcome {
    Send(GatewayCommand),
    PacketWaits { id: u64 },
    FrameWaits { id: u64 },
    StreamOpened { id: u64 },
    StreamRefused(Error),
    Status(DaveMediaStatus),
    MediaWaits { id: u64 },
    Closed,
}

/// What whoever asked is told when the connection is closed.
#[derive(Debug)]
pub enum ClosedCommand {
    /// Nobody waits for an answer.
    Nothing,
    Closed,
    Status(DaveMediaStatus),
}

impl ConnectionCommand {
    /// The command comes too late.
    pub fn complete_closed(self) -> (answer: ClosedCommand)
        ensures
            match self {
                ConnectionCommand::SetSpeaking { flags: _, delay: _ } => answer is Nothing,
                ConnectionCommand::Close => answer is Nothing,
                ConnectionCommand::DaveMediaStatus => answer matches ClosedCommand::Status(status)
                    && status == (DaveMediaStatus {
                    requires_dave: false,
                    active_send_protocol_version: None,
                    active_receive_protocol_version: None,
                    media_ready: false,
                    session_ready: false,
                    send_ready: false,
                    transition_ready: None,
                    protocol_version: None,
                    transition_id: None,
                    mls: crate::state::dave::DaveView::initial().shown_mls(),
                }),
                _ => answer is Closed,
            },
    {
        match self {
            ConnectionCommand::SetSpeaking { flags: _, delay: _ } => ClosedCommand::Nothing,
            ConnectionCommand::Close => ClosedCommand::Nothing,
            ConnectionCommand::DaveMediaStatus => ClosedCommand::Status(
                DaveMediaStatus {
                    requires_dave: false,
                    active_send_protocol_version: None,
                    active_receive_protocol_version: None,
                    media_ready: false,
                    session_ready: false,
                    send_ready: false,
                    transition_ready: None,
                    protocol_version: None,
                    transition_id: None,
                    mls: crate::state::DaveInternalState::default().mls_state(),
                },
            ),
            ConnectionCommand::RecvUdpPacket { kind: _, max_len: _ } => ClosedCommand::Closed,
            ConnectionCommand::RecvVoiceFrame { max_len: _, max_wait: _ } => ClosedCommand::Closed,
            ConnectionCommand::OpenFrameStream { max_len: _ } => ClosedCommand::Closed,
            ConnectionCommand::WaitUntilMediaReady { max_wait: _ } => ClosedCommand::Closed,
        }
    }
}

/// What comes from the gateway.
pub enum GatewayMessage {
    Text { seq: Option<i64>, event: GatewayTextEvent },
    Binary(Vec<u8>),
    Close,
    /// Anything else.
    Other,
    /// Reading failed, in these words.
    Failed(String),
    /// There is nothing more to come.
    Ended,
}

/// A connection that is up. `R` is whom to tell how playing went.
pub struct ConnectionDriver<Raw, R> where Raw: FrameRaw {
    pub state: ConnectionInternalState,
    pub dave: DaveCoordinator,
    pub receive: ReceivePipeline<Raw>,
    pub frame_receives: FrameReceives,
    pub frame_streams: FrameStreams,
    pub send: SendPipeline,
    pub playout: PlayoutSlot<R>,
    pub transport_crypto: TransportCrypto,
    pub media_ready_waits: MediaReadyWaits,
    pub heartbeat: Heartbeat,
    pub closed: bool,
}

/// The number of the last event, when one comes.
pub open spec fn numbered(state: StateView, seq: Option<i64>) -> StateView {
    StateView {
        last_seq: match seq {
            Some(seq) => Some(seq),
            None => state.last_seq,
        },
        ..state
    }
}

/// What comes of a message of the gateway: the state after it, whether the connection ends,
/// and what is to be done.
pub open spec fn message_handled(
    before: StateView,
    after: StateView,
    message: GatewayMessage,
    effects: Result<Option<GatewayEventEffects>, Error>,
) -> bool {
    match message {
        GatewayMessage::Text { seq, event } => {
            let counted = numbered(before, seq);
            match handled(counted, event) {
                Handled::Done(done, wanted) => {
                    &&& after == done
                    &&& effects matches Ok(Some(effects)) && effects@ == wanted
                },
                Handled::NoSession => {
                    &&& after == counted
                    &&& effects == Err::<Option<GatewayEventEffects>, Error>(
                        Error::Protocol(ProtocolError::MissingSessionDescription),
                    )
                },
                Handled::Refused(refusal) => {
                    &&& after == counted
                    &&& effects matches Err(Error::UnsupportedCodec(error))
                    &&& crate::codecs::says_refusal(error, refusal)
                },
            }
        },
        GatewayMessage::Binary(bytes) => {
            let (done, retried, fault) = binary_handled(before, bytes@);
            &&& after == done
            &&& match fault {
                Some(error) => effects == Err::<Option<GatewayEventEffects>, Error>(error),
                None => effects matches Ok(Some(effects)) && effects@ == (EffectsView {
                    retry_state: retried,
                    ..EffectsView::none()
                }),
            }
        },
        GatewayMessage::Close => after == before && effects matches Ok(None),
        GatewayMessage::Other => {
            &&& after == before
            &&& effects matches Ok(Some(effects)) && effects@ == EffectsView::none()
        },
        GatewayMessage::Failed(words) => after == before && effects == Err::<
            Option<GatewayEventEffects>,
            Error,
        >(Error::WebSocket(words)),
        GatewayMessage::Ended => after == before && effects matches Ok(None),
    }
}

impl<Raw, R> ConnectionDriver<Raw, R> where Raw: FrameRaw {
    /// Whether everything in it is in order.
    pub open spec fn well_formed(self) -> bool {
        self.receive.state.well_formed() && self.frame_receives.well_formed()
    }

    /// Whether that is a connection that is just up.
    pub open spec fn just_up(
        self,
        state: ConnectionInternalState,
        nonce: HeartbeatNonce,
        description: SessionDescription,
    ) -> bool {
        &&& self.well_formed()
        &&& self.state == state
        &&& self.dave@ == CoordinatorView::initial(
            state@.config.identity.user_id,
            state@.config.identity.channel_id,
        )
        &&& self.transport_crypto.mode() == description.transport_crypto.mode()
        &&& self.transport_crypto.key() == description.transport_crypto.key()
        &&& self.receive.state.limits() == state@.config.options.tuning
        &&& self.receive.state.sources().dom() == Set::<u32>::empty()
        &&& self.receive.state.waiting_media().total() == 0
        &&& self.receive.ready_frames@.len() == 0
        &&& self.receive.ready_frames.room() == state@.config.options.tuning.ready_frame_buffer_max
        &&& forall|kind: LowLevelReceiveKind| #[trigger]
            self.receive.packet_receives.waiting(kind).len() == 0
        &&& self.frame_receives.waiting().len() == 0
        &&& self.frame_streams.open is None
        &&& self.playout@.active is None
        &&& self.playout@.next_playout_id == 1
        &&& self.media_ready_waits@.len() == 0
        &&& self.heartbeat == (Heartbeat {
            nonce,
            ack: GatewayHeartbeatAckState { pending: false, sent_at: None },
            timeout: ack_timeout(state@.heartbeat_interval_ms),
        })
        &&& !self.closed
    }

    /// A connection that is just up. There has to be a session, and randomness for the
    /// nonces of the streams.
    pub fn new(state: ConnectionInternalState, nonce: HeartbeatNonce) -> (driver: Result<
        Self,
        Error,
    >)
        ensures
            match state@.session_description {
                None => driver == Err::<Self, Error>(
                    Error::Protocol(ProtocolError::MissingSessionDescription),
                ),
                Some(description) => match driver {
                    Err(error) => error == no_randomness(),
                    Ok(driver) => {
                        &&& driver.just_up(state, nonce, description)
                        &&& driver.send.starts_for(state@)
                    },
                },
            },
    {
        let send = SendPipeline::new(&state);
        Self::with_streams(state, nonce, send)
    }

    /// A connection that is just up, with the streams that were started for it. There has
    /// to be a session; where the streams could not be started, their error is returned.
    pub fn with_streams(
        state: ConnectionInternalState,
        nonce: HeartbeatNonce,
        send: Result<SendPipeline, Error>,
    ) -> (driver: Result<Self, Error>)
        ensures
            match state@.session_description {
                None => driver == Err::<Self, Error>(
                    Error::Protocol(ProtocolError::MissingSessionDescription),
                ),
                Some(description) => match send {
                    Err(error) => driver == Err::<Self, Error>(error),
                    Ok(send) => {
                        &&& driver matches Ok(driver)
                        &&& driver.just_up(state, nonce, description)
                        &&& driver.send == send
                    },
                },
            },
    {
        let transport_crypto = match &state.session_description {
            Some(description) => match TransportCrypto::from_config(&description.transport_crypto) {
                Ok(crypto) => crypto,
                Err(error) => {
                    return Err(error);
                },
            },
            None => {
                return Err(Error::Protocol(ProtocolError::MissingSessionDescription));
            },
        };
        let send = match send {
            Ok(send) => send,
            Err(error) => {
                return Err(error);
            },
        };
        let identity = state.config.identity;
        let tuning = state.config.options.tuning;
        let heartbeat = Heartbeat::new(nonce, state.heartbeat_interval_ms);
        Ok(
            ConnectionDriver {
                dave: DaveCoordinator::new(identity.user_id, identity.channel_id),
                receive: ReceivePipeline::new(tuning),
                frame_receives: FrameReceives::new(),
                frame_streams: FrameStreams::new(),
                send,
                playout: PlayoutSlot::new(),
                transport_crypto,
                media_ready_waits: MediaReadyWaits::new(),
                heartbeat,
                closed: false,
                state,
            },
        )
    }

    pub fn current_dave_media_status(&self, session: DaveReadiness) -> (status: DaveMediaStatus)
        ensures
            status == media_status(self.state@, self.dave@.transition_ready, session),
    {
        let dave = &self.state.dave;
        let requires_dave = dave.send_requires_dave();
        DaveMediaStatus {
            requires_dave,
            active_send_protocol_version: dave.active_send_protocol_version(),
            active_receive_protocol_version: dave.active_receive_protocol_version(),
            media_ready: DaveMediaStatus::ready_from(
                requires_dave,
                session.session_ready,
                session.send_ready,
                dave.gateway_media_ready(),
            ),
            session_ready: session.session_ready,
            send_ready: session.send_ready,
            transition_ready: self.dave.transition_ready(),
            protocol_version: dave.protocol_version(),
            transition_id: dave.transition_id(),
            mls: dave.mls_state(),
        }
    }

    /// Whether what is played may be sent.
    pub fn media_gate(&self, session: DaveReadiness) -> (gate: MediaGate)
        ensures
            ({
                let status = media_status(self.state@, self.dave@.transition_ready, session);
                gate == (MediaGate {
                    requires_dave: status.requires_dave,
                    media_ready: status.media_ready,
                    timeout: self.state@.config.options.dave_send_media_ready_timeout,
                })
            }),
    {
        let status = self.current_dave_media_status(session);
        MediaGate {
            requires_dave: status.requires_dave,
            media_ready: status.media_ready,
            timeout: self.state.config.options.dave_send_media_ready_timeout,
        }
    }

    /// Tells those who wait until media can be sent.
    pub fn resolve_pending_media_ready_waits(&mut self, session: DaveReadiness, now: Instant) -> (
    answers: Vec<MediaReadyAnswer>)
        ensures
            ({
                let status = media_status(
                    old(self).state@,
                    old(self).dave@.transition_ready,
                    session,
                );
                let waits = old(self).media_ready_waits@;
                let due = due_by(waits, now);
                if status.media_ready {
                    &&& answers@ == told_ready(waits, status)
                    &&& final(self).media_ready_waits@.len() == 0
                } else {
                    &&& answers@ == told_expired(waits.take(due))
                    &&& final(self).media_ready_waits@ == waits.skip(due)
                }
            }),
            *final(self) == (ConnectionDriver {
                media_ready_waits: final(self).media_ready_waits,
                ..*old(self)
            }),
    {
        let status = self.current_dave_media_status(session);
        self.media_ready_waits.resolve(status, now)
    }

    /// Whether that is when there is something to do at the latest: media that waits is
    /// given up, a missing packet is given up, a packet is played, a session was not ready
    /// in time, or somebody waits no longer.
    pub open spec fn wakes_at(self, now: Instant, deadline: Option<Instant>) -> bool {
        let playing = match self.playout@.active {
            Some(playout) => earlier_of(
                if playout.frames.len() > 0 {
                    Some(playout.due(now))
                } else if playout.finish_response is Some {
                    playout.next_send_at
                } else {
                    None
                },
                if playout.frames.len() > 0 {
                    playout.media_ready_deadline
                } else {
                    None
                },
            ),
            None => None,
        };
        let waits = if self.media_ready_waits@.len() > 0 {
            Some(self.media_ready_waits@[0].0)
        } else {
            None
        };
        exists|reorder: Option<Instant>, frames: Option<Instant>|
            {
                &&& #[trigger] self.receive.state.gives_up_at(reorder)
                &&& #[trigger] self.frame_receives.waits_until(frames)
                &&& deadline == earlier_of(
                    earlier_of(
                        earlier_of(
                            earlier_of(
                                self.receive.state.waiting_media().first_deadline(),
                                reorder,
                            ),
                            playing,
                        ),
                        waits,
                    ),
                    frames,
                )
            }
    }

    pub fn next_driver_wake_deadline(&self, now: Instant) -> (deadline: Option<Instant>)
        requires
            self.well_formed(),
        ensures
            self.wakes_at(now, deadline),
    {
        let media = self.receive.state.pending_dave_media_deadline();
        let reorder = self.receive.state.pending_rtp_reorder_deadline();
        let playing = match &self.playout.active {
            Some(playout) => earlier_deadline(playout.wake_deadline(now), playout.dave_deadline()),
            None => None,
        };
        let waits = self.media_ready_waits.next_deadline();
        let frames = self.frame_receives.next_deadline();
        let deadline = earlier_deadline(
            earlier_deadline(
                earlier_deadline(earlier_deadline(media, reorder), playing),
                waits,
            ),
            frames,
        );
        assert(self.receive.state.gives_up_at(reorder));
        assert(self.frame_receives.waits_until(frames));
        deadline
    }

    /// Takes a message of the gateway.
    pub fn handle_websocket_message(&mut self, message: GatewayMessage) -> (effects: Result<
        Option<GatewayEventEffects>,
        Error,
    >)
        ensures
            message_handled(old(self).state@, final(self).state@, message, effects),
            *final(self) == (ConnectionDriver {
                state: final(self).state,
                heartbeat: Heartbeat {
                    ack: if message matches GatewayMessage::Text { seq, event }
                        && event is HeartbeatAck {
                        GatewayHeartbeatAckState { pending: false, sent_at: None }
                    } else {
                        old(self).heartbeat.ack
                    },
                    ..old(self).heartbeat
                },
                closed: old(self).closed || message is Close || message is Ended,
                ..*old(self)
            }),
    {
        match message {
            GatewayMessage::Text { seq, event } => {
                if let Some(seq) = seq {
                    self.state.last_seq = Some(seq);
                }
                match handle_text_event(&mut self.state, &mut self.heartbeat.ack, event) {
                    Ok(effects) => Ok(Some(effects)),
                    Err(error) => Err(error),
                }
            },
            GatewayMessage::Binary(bytes) => {
                match handle_voice_binary_event(&mut self.state, bytes.as_slice()) {
                    Ok(effects) => Ok(Some(effects)),
                    Err(error) => Err(error),
                }
            },
            GatewayMessage::Close => {
                self.closed = true;
                Ok(None)
            },
            GatewayMessage::Other => Ok(Some(GatewayEventEffects::none())),
            GatewayMessage::Failed(words) => Err(Error::WebSocket(words)),
            GatewayMessage::Ended => {
                self.closed = true;
                Ok(None)
            },
        }
    }

    /// What an event asks for, but for the streams: a new key is used, media in the clear is
    /// let through for a while, and nothing of users who left is kept once the streams
    /// followed.
    pub open spec fn effects_applied(
        self,
        after: Self,
        effects: EffectsView,
        result: Result<(), Error>,
    ) -> bool {
        &&& after.well_formed()
        &&& after.state == self.state
        &&& after.frame_receives == self.frame_receives
        &&& after.frame_streams == self.frame_streams
        &&& after.playout == self.playout
        &&& after.media_ready_waits == self.media_ready_waits
        &&& after.heartbeat == self.heartbeat
        &&& after.closed == self.closed
        &&& match effects.crypto {
            Some(config) => after.transport_crypto.mode() == config.mode()
                && after.transport_crypto.key() == config.key(),
            None => after.transport_crypto == self.transport_crypto,
        }
        &&& after.dave@ == (if effects.grace {
            CoordinatorView { passthrough: Some(PassthroughMode::grace()), ..self.dave@ }
        } else {
            self.dave@
        })
        &&& if result is Ok && effects.removed.len() > 0 {
            self.receive.pruned(after.receive, effects.removed)
        } else {
            after.receive == self.receive
        }
    }

    /// Does what an event asks for: a new key is used, media in the clear is let through
    /// for a while, the streams follow a new agreement, and nothing of users who left is
    /// kept.
    pub fn apply_gateway_effects(&mut self, effects: &GatewayEventEffects) -> (result: Result<
        (),
        Error,
    >)
        requires
            old(self).well_formed(),
        ensures
            old(self).effects_applied(*final(self), effects@, result),
            if effects@.media_updated {
                old(self).send.negotiated(agreed_video(old(self).state@), final(self).send, result)
            } else {
                final(self).send == old(self).send && result is Ok
            },
    {
        let drawn = if effects.media_session_updated {
            self.send.draw_nonce(&self.state)
        } else {
            None
        };
        self.apply_with_nonce(effects, drawn)
    }

    /// Does what an event asks for, with the nonce that was drawn where a stream begins.
    pub fn apply_with_nonce(
        &mut self,
        effects: &GatewayEventEffects,
        drawn: Option<Result<RtpSizeNonceSuffix, Error>>,
    ) -> (result: Result<(), Error>)
        requires
            old(self).well_formed(),
            effects@.media_updated && old(self).send.begins_stream(agreed_video(old(self).state@))
                ==> drawn is Some,
        ensures
            old(self).effects_applied(*final(self), effects@, result),
            if effects@.media_updated {
                old(self).send.followed(
                    agreed_video(old(self).state@),
                    drawn,
                    final(self).send,
                    result,
                )
            } else {
                final(self).send == old(self).send && result == Ok::<(), Error>(())
            },
    {
        if let Some(config) = &effects.transport_crypto {
            self.transport_crypto = match TransportCrypto::from_config(config) {
                Ok(crypto) => crypto,
                Err(error) => {
                    return Err(error);
                },
            };
        }
        if effects.allow_plaintext_receive_grace {
            self.dave.allow_plaintext_receive_grace();
        }
        if effects.media_session_updated {
            if let Err(error) = self.send.follow_agreement(&self.state, drawn) {
                return Err(error);
            }
        }
        proof {
            lemma_listed(effects.removed_ssrcs@);
        }
        if effects.removed_ssrcs.len() == 0 {
            return Ok(());
        }
        let removed = source_set(&effects.removed_ssrcs);
        self.receive.prune_ssrcs(&removed);
        Ok(())
    }

    /// Takes a command.
    pub fn handle_command(
        &mut self,
        command: ConnectionCommand,
        session: DaveReadiness,
        now: Instant,
    ) -> (outcome: CommandOutcome)
        requires
            old(self).well_formed(),
        ensures
            final(self).well_formed(),
            command_done(*old(self), *final(self), command, session, now, outcome),
    {
        match command {
            ConnectionCommand::SetSpeaking { flags, delay } => CommandOutcome::Send(
                GatewayCommand::Speaking(
                    SpeakingCommand {
                        speaking: flags.bits(),
                        delay: Some(delay),
                        ssrc: self.state.ready.ssrc,
                        user_id: None,
                    },
                ),
            ),
            ConnectionCommand::RecvUdpPacket { kind, max_len } => {
                let id = self.receive.next_receive_id();
                self.receive.packet_receives.push(kind, id, max_len);
                CommandOutcome::PacketWaits { id }
            },
            ConnectionCommand::RecvVoiceFrame { max_len, max_wait } => {
                let id = self.receive.next_receive_id();
                self.frame_receives.push(id, max_len, max_wait, now);
                CommandOutcome::FrameWaits { id }
            },
            ConnectionCommand::OpenFrameStream { max_len } => {
                let id = self.receive.next_receive_id;
                match self.frame_streams.attach(id, max_len) {
                    Ok(()) => {
                        let _ = self.receive.next_receive_id();
                        CommandOutcome::StreamOpened { id }
                    },
                    Err(error) => CommandOutcome::StreamRefused(error),
                }
            },
            ConnectionCommand::DaveMediaStatus => CommandOutcome::Status(
                self.current_dave_media_status(session),
            ),
            ConnectionCommand::WaitUntilMediaReady { max_wait } => {
                let id = self.receive.next_receive_id();
                self.media_ready_waits.push(id, max_wait, now);
                CommandOutcome::MediaWaits { id }
            },
            ConnectionCommand::Close => {
                self.closed = true;
                CommandOutcome::Closed
            },
        }
    }

    /// Who speaks is announced with what is played.
    pub fn playout_speaking(&self, flags: SpeakingFlags) -> (command: GatewayCommand)
        ensures
            command == GatewayCommand::Speaking(
                SpeakingCommand {
                    speaking: flags@,
                    delay: Some(0),
                    ssrc: self.state@.ready.ssrc,
                    user_id: None,
                },
            ),
    {
        GatewayCommand::Speaking(
            SpeakingCommand {
                speaking: flags.bits(),
                delay: Some(0),
                ssrc: self.state.ready.ssrc,
                user_id: None,
            },
        )
    }

    /// Closes the connection. Says whether it was open.
    pub fn close(&mut self) -> (was_open: bool)
        ensures
            was_open == !old(self).closed,
            *final(self) == (ConnectionDriver { closed: true, ..*old(self) }),
    {
        let was_open = !self.closed;
        self.closed = true;
        was_open
    }
}

/// The id after this one. No id is zero.
pub open spec fn next_receive(id: u64) -> u64 {
    if id == u64::MAX {
        1
    } else {
        (id + 1) as u64
    }
}

/// What a command does.
pub open spec fn command_done<Raw: FrameRaw, R>(
    before: ConnectionDriver<Raw, R>,
    after: ConnectionDriver<Raw, R>,
    command: ConnectionCommand,
    session: DaveReadiness,
    now: Instant,
    outcome: CommandOutcome,
) -> bool {
    let id = before.receive.next_receive_id;
    let counted = ReceivePipeline { next_receive_id: next_receive(id), ..before.receive };
    match command {
        ConnectionCommand::SetSpeaking { flags, delay } => {
            &&& after == before
            &&& outcome == CommandOutcome::Send(
                GatewayCommand::Speaking(
                    SpeakingCommand {
                        speaking: flags@,
                        delay: Some(delay),
                        ssrc: before.state@.ready.ssrc,
                        user_id: None,
                    },
                ),
            )
        },
        ConnectionCommand::RecvUdpPacket { kind, max_len } => {
            &&& outcome == (CommandOutcome::PacketWaits { id })
            &&& after == (ConnectionDriver { receive: after.receive, ..before })
            &&& after.receive == (ReceivePipeline {
                packet_receives: after.receive.packet_receives,
                ..counted
            })
            &&& forall|other: LowLevelReceiveKind| #[trigger]
                after.receive.packet_receives.waiting(other) == (if other == kind {
                    before.receive.packet_receives.waiting(other).push((id, max_len))
                } else {
                    before.receive.packet_receives.waiting(other)
                })
        },
        ConnectionCommand::RecvVoiceFrame { max_len, max_wait } => {
            &&& outcome == (CommandOutcome::FrameWaits { id })
            &&& after == (ConnectionDriver {
                receive: counted,
                frame_receives: after.frame_receives,
                ..before
            })
            &&& after.frame_receives.waiting() == without(
                before.frame_receives.waiting(),
                id,
            ).push(id)
            &&& after.frame_receives.wishes() == before.frame_receives.wishes().insert(
                id,
                super::frames::FrameReceive { max_len, max_wait },
            )
            &&& after.frame_receives.times() == (match max_wait {
                Some(max_wait) => before.frame_receives.times().insert(id, now.later(max_wait)),
                None => before.frame_receives.times().remove(id),
            })
        },
        ConnectionCommand::OpenFrameStream { max_len } => match before.frame_streams.open {
            None => {
                &&& outcome == (CommandOutcome::StreamOpened { id })
                &&& after == (ConnectionDriver {
                    receive: counted,
                    frame_streams: FrameStreams { open: Some(FrameStream { id, max_len }) },
                    ..before
                })
            },
            Some(_) => {
                &&& outcome == CommandOutcome::StreamRefused(
                    Error::Backpressure(BackpressureError::ActiveFrameStream),
                )
                &&& after == before
            },
        },
        ConnectionCommand::DaveMediaStatus => {
            &&& after == before
            &&& outcome == CommandOutcome::Status(
                media_status(before.state@, before.dave@.transition_ready, session),
            )
        },
        ConnectionCommand::WaitUntilMediaReady { max_wait } => {
            &&& outcome == (CommandOutcome::MediaWaits { id })
            &&& after == (ConnectionDriver {
                receive: counted,
                media_ready_waits: after.media_ready_waits,
                ..before
            })
            &&& after.media_ready_waits@ == before.media_ready_waits@.insert(
                due_by(before.media_ready_waits@, now.later(max_wait)),
                (now.later(max_wait), MediaReadyWait { id, max_wait }),
            )
        },
        ConnectionCommand::Close => {
            &&& outcome is Closed
            &&& after == (ConnectionDriver { closed: true, ..before })
        },
    }
}

proof fn lemma_listed(sources: Seq<u32>)
    ensures
        (sources.to_set().len() == 0) == (sources.len() == 0),
{
    sources.lemma_cardinality_of_set();
    if sources.len() > 0 {
        assert(sources.to_set().contains(sources[0]));
        if sources.to_set().len() == 0 {
            assert(sources.to_set() =~= Set::empty());
        }
    } else {
        assert(sources.to_set() =~= Set::empty());
    }
}

/// Media that needs no encryption is always ready to be sent.
pub proof fn law_plain_media_is_ready(
    state: StateView,
    transition_ready: Option<u16>,
    session: DaveReadiness,
)
    ensures
        !state.dave.requires_dave() ==> media_status(state, transition_ready, session).media_ready,
        state.dave.requires_dave() && !(session.session_ready && session.send_ready)
            ==> !media_status(state, transition_ready, session).media_ready,
{
}

/// Whether there is a deadline, no later than that.
pub open spec fn due_by_then(deadline: Option<Instant>, latest: Instant) -> bool {
    deadline matches Some(at) && at.nanos <= latest.nanos
}

/// The connection wakes no later than the packet that is due, than whoever waits first until
/// media can be sent, and than the media that waits is given up.
pub proof fn law_it_wakes_in_time<Raw: FrameRaw, R>(
    driver: ConnectionDriver<Raw, R>,
    now: Instant,
    deadline: Option<Instant>,
)
    requires
        driver.wakes_at(now, deadline),
    ensures
        driver.playout@.active matches Some(playout) ==> (playout.frames.len() > 0
            ==> due_by_then(deadline, playout.due(now))),
        driver.media_ready_waits@.len() > 0 ==> due_by_then(
            deadline,
            driver.media_ready_waits@[0].0,
        ),
        driver.receive.state.waiting_media().first_deadline() matches Some(media) ==> due_by_then(
            deadline,
            media,
        ),
{
}

} // verus!
