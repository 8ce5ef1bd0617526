//! Connecting, stage by stage.

use crate::codecs::{says_refusal, session_codecs, DiscordRtpCodecMap};
use crate::dave::identity::identity_view;
use crate::errors::Error;
use crate::gateway::command::{
    identify_data, identify_payload, offered_codecs, payload_text, GatewayCommand,
    SelectProtocolCommand,
};
use crate::gateway::discovery::{discovery_request, discovery_told, UdpDiscoveryPacket};
use crate::gateway::opcode::Opcode;
use crate::gateway::ready::GatewayReady;
use crate::observer::ConnectStage;
use crate::state::connection::{ConnectionInternalState, StateView};
use crate::state::dave::{DaveInternalState, DaveView};
use crate::state::session::SessionDescription;
use crate::state::{ConnectionRuntimeConfig, EncryptionMode, ValidatedConnectionConfig};
use crate::text::copy_text;
use crate::time::Duration;
use std::collections::{HashMap, HashSet};
use vstd::prelude::*;
use vstd::std_specs::hash::group_hash_axioms;

verus! {

broadcast use group_hash_axioms;

pub const CONNECT_TIMEOUT_SECS: u64 = 15;

pub const HELLO_TIMEOUT_SECS: u64 = 10;

pub const READY_TIMEOUT_SECS: u64 = 10;

pub const UDP_DISCOVERY_TIMEOUT_SECS: u64 = 5;

pub const SESSION_DESCRIPTION_TIMEOUT_SECS: u64 = 10;

/// How long a stage may take, in seconds.
pub open spec fn stage_secs(stage: ConnectStage) -> u64 {
    match stage {
        ConnectStage::WebSocketConnect => CONNECT_TIMEOUT_SECS,
        ConnectStage::Hello => HELLO_TIMEOUT_SECS,
        ConnectStage::Ready => READY_TIMEOUT_SECS,
        ConnectStage::UdpDiscovery => UDP_DISCOVERY_TIMEOUT_SECS,
        ConnectStage::SessionDescription => SESSION_DESCRIPTION_TIMEOUT_SECS,
    }
}

pub fn stage_duration(stage: ConnectStage) -> (duration: Duration)
    ensures
        duration == Duration::secs(stage_secs(stage)),
{
    Duration::from_secs(
        match stage {
            ConnectStage::WebSocketConnect => CONNECT_TIMEOUT_SECS,
            ConnectStage::Hello => HELLO_TIMEOUT_SECS,
            ConnectStage::Ready => READY_TIMEOUT_SECS,
            ConnectStage::UdpDiscovery => UDP_DISCOVERY_TIMEOUT_SECS,
            ConnectStage::SessionDescription => SESSION_DESCRIPTION_TIMEOUT_SECS,
        },
    )
}

/// What comes of a stage: what it gave, or that its time was over.
pub fn stage_timeout<T>(stage: ConnectStage, outcome: Option<Result<T, Error>>) -> (result: Result<
    T,
    Error,
>)
    ensures
        result == (match outcome {
            Some(outcome) => outcome,
            None => Err::<T, Error>(
                Error::Timeout {
                    stage: Some(stage),
                    duration: Duration::secs(stage_secs(stage)),
                },
            ),
        }),
{
    match outcome {
        Some(outcome) => outcome,
        None => Err(Error::Timeout { stage: Some(stage), duration: stage_duration(stage) }),
    }
}

/// What comes from the gateway while connecting. The data of a text event is read when it is
/// taken.
pub enum SetupMessage {
    Text { opcode: u64, seq: Option<i64> },
    Binary,
    /// Anything else.
    Other,
    /// Reading failed, in these words.
    Failed(String),
    /// There is nothing more to come.
    Ended,
}

/// What is done with it.
#[derive(Clone, Copy, Debug, PartialEq, Eq, Structural)]
pub enum SetupStep {
    /// It is passed over.
    Skip,
    /// It is what was waited for.
    Take,
    /// It is kept until the connection is up.
    Keep,
}

/// What ends the connection before it is up.
pub open spec fn setup_failure(message: SetupMessage) -> Option<Error> {
    match message {
        SetupMessage::Failed(words) => Some(Error::WebSocket(words)),
        SetupMessage::Ended => Some(Error::Closed),
        _ => None,
    }
}

/// The number of the last event, when one comes.
pub open spec fn seq_after(last_seq: Option<i64>, message: SetupMessage) -> Option<i64> {
    match message {
        SetupMessage::Text { opcode: _, seq: Some(seq) } => Some(seq),
        _ => last_seq,
    }
}

/// What is done with a message while an event with an opcode is waited for.
pub open spec fn setup_step(message: SetupMessage, opcode: Opcode, keep: bool) -> SetupStep {
    match message {
        SetupMessage::Text { opcode: code, seq: _ } => if code == opcode.number() {
            SetupStep::Take
        } else if keep {
            SetupStep::Keep
        } else {
            SetupStep::Skip
        },
        SetupMessage::Binary => if keep {
            SetupStep::Keep
        } else {
            SetupStep::Skip
        },
        _ => SetupStep::Skip,
    }
}

/// Takes a message while an event with an opcode is waited for.
fn sort_message(
    last_seq: &mut Option<i64>,
    message: SetupMessage,
    opcode: Opcode,
    keep: bool,
) -> (step: Result<SetupStep, Error>)
    ensures
        *final(last_seq) == seq_after(*old(last_seq), message),
        step == (match setup_failure(message) {
            Some(error) => Err::<SetupStep, Error>(error),
            None => Ok::<SetupStep, Error>(setup_step(message, opcode, keep)),
        }),
{
    match message {
        SetupMessage::Text { opcode: code, seq } => {
            if let Some(seq) = seq {
                *last_seq = Some(seq);
            }
            if code == opcode.code() {
                Ok(SetupStep::Take)
            } else if keep {
                Ok(SetupStep::Keep)
            } else {
                Ok(SetupStep::Skip)
            }
        },
        SetupMessage::Binary => if keep {
            Ok(SetupStep::Keep)
        } else {
            Ok(SetupStep::Skip)
        },
        SetupMessage::Other => Ok(SetupStep::Skip),
        SetupMessage::Failed(words) => Err(Error::WebSocket(words)),
        SetupMessage::Ended => Err(Error::Closed),
    }
}

/// Waits for the greeting of the gateway.
pub struct AwaitingHello {
    pub config: ValidatedConnectionConfig,
    pub last_seq: Option<i64>,
}

/// Waits until the gateway is ready.
pub struct AwaitingReady {
    pub config: ValidatedConnectionConfig,
    pub heartbeat_interval_ms: u64,
    pub last_seq: Option<i64>,
}

/// Waits for the answer that says how this side is seen.
pub struct AwaitingDiscovery {
    pub config: ValidatedConnectionConfig,
    pub heartbeat_interval_ms: u64,
    pub last_seq: Option<i64>,
    pub ready: GatewayReady,
}

/// Waits for the description of the session.
pub struct AwaitingSession {
    pub config: ValidatedConnectionConfig,
    pub heartbeat_interval_ms: u64,
    pub last_seq: Option<i64>,
    pub ready: GatewayReady,
    pub discovery: UdpDiscoveryPacket,
    pub selected_mode: EncryptionMode,
}

impl AwaitingHello {
    pub fn new(config: ValidatedConnectionConfig) -> (stage: Self)
        ensures
            stage == (AwaitingHello { config, last_seq: None }),
    {
        AwaitingHello { config, last_seq: None }
    }

    /// Any text event is the greeting.
    pub fn message(&mut self, message: SetupMessage) -> (step: Result<SetupStep, Error>)
        ensures
            final(self).config == old(self).config,
            final(self).last_seq == (match message {
                SetupMessage::Text { opcode: _, seq } => seq,
                _ => old(self).last_seq,
            }),
            step == (match setup_failure(message) {
                Some(error) => Err::<SetupStep, Error>(error),
                None => Ok::<SetupStep, Error>(
                    if message is Text {
                        SetupStep::Take
                    } else {
                        SetupStep::Skip
                    },
                ),
            }),
    {
        match message {
            SetupMessage::Text { opcode: _, seq } => {
                self.last_seq = seq;
                Ok(SetupStep::Take)
            },
            SetupMessage::Binary => Ok(SetupStep::Skip),
            SetupMessage::Other => Ok(SetupStep::Skip),
            SetupMessage::Failed(words) => Err(Error::WebSocket(words)),
            SetupMessage::Ended => Err(Error::Closed),
        }
    }

    /// The gateway said how often it wants to hear of us. It is told who connects.
    pub fn greeted(self, heartbeat_interval_ms: u64) -> (next: (AwaitingReady, String))
        ensures
            next.0 == (AwaitingReady {
                config: self.config,
                heartbeat_interval_ms,
                last_seq: self.last_seq,
            }),
            next.1@ == payload_text(Opcode::Identify, identify_data(self.config)),
    {
        let payload = identify_payload(&self.config);
        (
            AwaitingReady {
                config: self.config,
                heartbeat_interval_ms,
                last_seq: self.last_seq,
            },
            payload,
        )
    }
}

impl AwaitingReady {
    /// Events that come before are passed over.
    pub fn message(&mut self, message: SetupMessage) -> (step: Result<SetupStep, Error>)
        ensures
            *final(self) == (AwaitingReady {
                last_seq: seq_after(old(self).last_seq, message),
                ..*old(self)
            }),
            step == (match setup_failure(message) {
                Some(error) => Err::<SetupStep, Error>(error),
                None => Ok::<SetupStep, Error>(setup_step(message, Opcode::Ready, false)),
            }),
    {
        sort_message(&mut self.last_seq, message, Opcode::Ready, false)
    }

    /// The gateway is ready. What is sent to the address that it gave asks how this side is
    /// seen.
    pub fn readied(self, ready: GatewayReady) -> (next: (AwaitingDiscovery, Vec<u8>))
        ensures
            next.0 == (AwaitingDiscovery {
                config: self.config,
                heartbeat_interval_ms: self.heartbeat_interval_ms,
                last_seq: self.last_seq,
                ready,
            }),
            next.1@ == discovery_request(ready.ssrc),
    {
        let request = UdpDiscoveryPacket::request(ready.ssrc);
        (
            AwaitingDiscovery {
                config: self.config,
                heartbeat_interval_ms: self.heartbeat_interval_ms,
                last_seq: self.last_seq,
                ready,
            },
            request,
        )
    }
}

/// What comes of the answer that says how this side is seen: it is read, then a mode is
/// chosen, and then the gateway is told both.
pub open spec fn discovered_told(
    stage: AwaitingDiscovery,
    packet: Seq<u8>,
    next: Result<(AwaitingSession, GatewayCommand), Error>,
) -> bool {
    exists|answer: Result<UdpDiscoveryPacket, Error>|
        #[trigger] discovery_told(packet, answer) && match answer {
            Err(error) => next == Err::<(AwaitingSession, GatewayCommand), Error>(error),
            Ok(discovery) => exists|mode: Result<EncryptionMode, Error>|
                #[trigger] stage.ready.mode_told(stage.config.options.required_mode, mode)
                    && match mode {
                    Err(error) => next == Err::<(AwaitingSession, GatewayCommand), Error>(error),
                    Ok(selected_mode) => {
                        &&& next matches Ok((session, command))
                        &&& session == (AwaitingSession {
                            config: stage.config,
                            heartbeat_interval_ms: stage.heartbeat_interval_ms,
                            last_seq: stage.last_seq,
                            ready: stage.ready,
                            discovery,
                            selected_mode,
                        })
                        &&& command matches GatewayCommand::SelectProtocol(select)
                        &&& select.data.address@ == discovery.address@
                        &&& select.data.port == discovery.port
                        &&& select.data.mode == selected_mode
                        &&& offered_codecs(
                            select.codecs@,
                            stage.config.options.codec_preferences@,
                        )
                    },
                },
        }
}

impl AwaitingDiscovery {
    pub fn discovered(self, packet: &[u8]) -> (next: Result<
        (AwaitingSession, GatewayCommand),
        Error,
    >)
        ensures
            discovered_told(self, packet@, next),
    {
        let answer = UdpDiscoveryPacket::decode(packet);
        assert(discovery_told(packet@, answer));
        let discovery = match answer {
            Ok(discovery) => discovery,
            Err(error) => {
                return Err(error);
            },
        };
        let mode = self.ready.select_encryption_mode(&self.config.options);
        assert(self.ready.mode_told(self.config.options.required_mode, mode));
        let selected_mode = match mode {
            Ok(mode) => mode,
            Err(error) => {
                return Err(error);
            },
        };
        let command = GatewayCommand::SelectProtocol(
            SelectProtocolCommand::udp(
                copy_text(discovery.address.as_str()),
                discovery.port,
                selected_mode,
                &self.config.options.codec_preferences,
            ),
        );
        Ok(
            (
                AwaitingSession {
                    config: self.config,
                    heartbeat_interval_ms: self.heartbeat_interval_ms,
                    last_seq: self.last_seq,
                    ready: self.ready,
                    discovery,
                    selected_mode,
                },
                command,
            ),
        )
    }
}

/// Whether a running connection keeps this of its request.
pub open spec fn kept_config(
    kept: ConnectionRuntimeConfig,
    config: ValidatedConnectionConfig,
) -> bool {
    &&& kept.identity == config.identity
    &&& kept.endpoint@ == config.endpoint@
    &&& kept.options.gateway_version == config.options.gateway_version
    &&& kept.options.required_mode == config.options.required_mode
    &&& kept.options.codec_preferences@ == config.options.codec_preferences@
    &&& kept.options.max_dave_protocol_version == config.options.max_dave_protocol_version
    &&& kept.options.dave_send_media_ready_timeout == config.options.dave_send_media_ready_timeout
    &&& identity_view(kept.options.dave_identity) == identity_view(config.options.dave_identity)
    &&& kept.options.tuning == config.options.tuning
}

/// Whether this is a connection that is just up.
pub open spec fn just_up(
    stage: AwaitingSession,
    description: SessionDescription,
    state: StateView,
) -> bool {
    &&& kept_config(state.config, stage.config)
    &&& session_codecs(
        description.audio_codec,
        description.video_codec,
        stage.config.options.codec_preferences@,
    ) matches Ok(codecs) && state == (StateView {
        config: state.config,
        heartbeat_interval_ms: stage.heartbeat_interval_ms,
        last_seq: stage.last_seq,
        ready: stage.ready,
        discovery: stage.discovery,
        selected_mode: stage.selected_mode,
        session_description: Some(description),
        codecs: Some(codecs),
        connected: set![stage.config.identity.user_id],
        users: Map::empty(),
        speaking: Map::empty(),
        dave: DaveView::initial().session_protocol_set(description.dave_protocol_version),
        roster_authoritative: false,
        resumed: false,
    })
}

impl AwaitingSession {
    /// Events that come before are kept until the connection is up.
    pub fn message(&mut self, message: SetupMessage) -> (step: Result<SetupStep, Error>)
        ensures
            *final(self) == (AwaitingSession {
                last_seq: seq_after(old(self).last_seq, message),
                ..*old(self)
            }),
            step == (match setup_failure(message) {
                Some(error) => Err::<SetupStep, Error>(error),
                None => Ok::<SetupStep, Error>(
                    setup_step(message, Opcode::SessionDescription, true),
                ),
            }),
    {
        sort_message(&mut self.last_seq, message, Opcode::SessionDescription, true)
    }

    /// The session is described, and the connection is up. Codecs that are not known here
    /// are refused.
    pub fn described(self, description: SessionDescription) -> (state: Result<
        ConnectionInternalState,
        Error,
    >)
        ensures
            match session_codecs(
                description.audio_codec,
                description.video_codec,
                self.config.options.codec_preferences@,
            ) {
                Err(refusal) => state matches Err(Error::UnsupportedCodec(error)) && says_refusal(
                    error,
                    refusal,
                ),
                Ok(_) => state matches Ok(state) && just_up(self, description, state@),
            },
    {
        let rtp_codecs = match DiscordRtpCodecMap::new(
            &description,
            &self.config.options.codec_preferences,
        ) {
            Ok(codecs) => codecs,
            Err(error) => {
                return Err(Error::UnsupportedCodec(error));
            },
        };
        let config = self.config.runtime_config();
        let mut connected_user_ids: HashSet<u64> = HashSet::new();
        connected_user_ids.insert(self.config.identity.user_id);
        assert(connected_user_ids@ =~= set![self.config.identity.user_id]);
        let mut dave = DaveInternalState::default();
        dave.set_session_protocol(description.dave_protocol_version);
        Ok(
            ConnectionInternalState {
                config,
                heartbeat_interval_ms: self.heartbeat_interval_ms,
                last_seq: self.last_seq,
                ready: self.ready,
                discovery: self.discovery,
                selected_mode: self.selected_mode,
                session_description: Some(description),
                rtp_codecs: Some(rtp_codecs),
                connected_user_ids,
                ssrc_users: HashMap::new(),
                speaking: HashMap::new(),
                dave,
                roster_authoritative: false,
                resumed: false,
            },
        )
    }
}

/// While the description of the session is waited for, no event is lost: each is taken or
/// kept.
pub proof fn law_no_event_is_lost(message: SetupMessage)
    requires
        message is Text || message is Binary,
    ensures
        setup_step(message, Opcode::SessionDescription, true) != SetupStep::Skip,
        setup_failure(message) is None,
{
}

/// The number of the last event never goes back to none.
pub proof fn law_numbers_of_events_are_kept(last_seq: Option<i64>, message: SetupMessage)
    ensures
        last_seq is Some ==> seq_after(last_seq, message) is Some,
        message matches SetupMessage::Text { opcode, seq: Some(seq) } ==> seq_after(
            last_seq,
            message,
        ) == Some(seq),
{
}

} // verus!
