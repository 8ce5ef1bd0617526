//! What the gateway tells this end, and what that does to a connection.

use super::binary::{read_binary, too_short, BinaryEvent, DaveTransitionBinaryPayload};
use super::opcode::Opcode;
use super::value::{DiscordId, SpeakingUpdate};
use crate::bytes::to_vec;
use crate::codecs::{says_refusal, session_codecs, DiscordRtpCodecMap};
use crate::errors::{Error, ProtocolError};
use crate::media::crypto::TransportCryptoConfig;
use crate::roster::{add_ids, id_numbers, others, remove_sources, sources_of};
use crate::state::connection::StateView;
use crate::state::dave::{encrypting, DaveView};
use crate::state::retry::DavePendingMediaBucket;
use crate::state::session::copy_name;
use crate::state::{
    ConnectionInternalState, DaveMlsMessageIdentity, DavePendingMediaRetry, SessionDescription,
};
use crate::time::{Duration, Instant};
use vstd::prelude::*;
use vstd::std_specs::hash::group_hash_axioms;

verus! {

/// An event of the gateway, as far as it concerns a connection that is up.
pub enum GatewayTextEvent {
    SessionDescription(SessionDescription),
    SessionUpdate { audio_codec: Option<String>, video_codec: Option<String> },
    Resumed,
    DavePrepareTransition { protocol_version: u16, transition_id: u16 },
    DaveExecuteTransition { transition_id: u16 },
    DavePrepareEpoch { protocol_version: u16, epoch: u64 },
    Speaking(SpeakingUpdate),
    ClientsConnect { user_ids: Vec<DiscordId> },
    ClientConnect { user_id: DiscordId, audio_ssrc: Option<u32>, ssrc: Option<u32> },
    ClientDisconnect { user_id: DiscordId },
    HeartbeatAck,
    /// Any other event.
    Other,
}

/// What is to be done about an event.
pub struct GatewayEventEffects {
    pub disconnected_user_ids: Vec<u64>,
    pub removed_ssrcs: Vec<u32>,
    pub retry_dave_pending_media: DavePendingMediaRetry,
    pub allow_plaintext_receive_grace: bool,
    pub transport_crypto: Option<TransportCryptoConfig>,
    pub media_session_updated: bool,
    /// How many clients connected, where that is reported.
    pub clients_connected: Option<usize>,
}

/// The same as a mathematical value.
pub struct EffectsView {
    pub disconnected: Seq<u64>,
    pub removed: Set<u32>,
    pub retry_users: bool,
    pub retry_state: bool,
    pub grace: bool,
    pub crypto: Option<TransportCryptoConfig>,
    pub media_updated: bool,
    pub clients: Option<usize>,
}

impl EffectsView {
    pub open spec fn none() -> EffectsView {
        EffectsView {
            disconnected: seq![],
            removed: Set::empty(),
            retry_users: false,
            retry_state: false,
            grace: false,
            crypto: None,
            media_updated: false,
            clients: None,
        }
    }
}

impl View for GatewayEventEffects {
    type V = EffectsView;

    open spec fn view(&self) -> EffectsView {
        EffectsView {
            disconnected: self.disconnected_user_ids@,
            removed: self.removed_ssrcs@.to_set(),
            retry_users: self.retry_dave_pending_media.takes(DavePendingMediaBucket::MissingUser),
            retry_state: self.retry_dave_pending_media.takes(
                DavePendingMediaBucket::DecryptStatePending,
            ),
            grace: self.allow_plaintext_receive_grace,
            crypto: self.transport_crypto,
            media_updated: self.media_session_updated,
            clients: self.clients_connected,
        }
    }
}

impl GatewayEventEffects {
    pub fn none() -> (effects: Self)
        ensures
            effects@ == EffectsView::none(),
            effects.removed_ssrcs@.no_duplicates(),
    {
        let effects = GatewayEventEffects {
            disconnected_user_ids: Vec::new(),
            removed_ssrcs: Vec::new(),
            retry_dave_pending_media: DavePendingMediaRetry::none(),
            allow_plaintext_receive_grace: false,
            transport_crypto: None,
            media_session_updated: false,
            clients_connected: None,
        };
        assert(effects.disconnected_user_ids@ =~= seq![]);
        assert(effects.removed_ssrcs@.to_set() =~= Set::empty());
        effects
    }
}

/// Whether the heartbeat was answered.
#[derive(Clone, Copy, Debug, PartialEq, Eq, Structural)]
pub struct GatewayHeartbeatAckState {
    pub pending: bool,
    pub sent_at: Option<Instant>,
}

impl GatewayHeartbeatAckState {
    pub fn new() -> (state: Self)
        ensures
            state == (GatewayHeartbeatAckState { pending: false, sent_at: None }),
    {
        GatewayHeartbeatAckState { pending: false, sent_at: None }
    }

    pub fn is_pending(self) -> (answer: bool)
        ensures
            answer == self.pending,
    {
        self.pending
    }

    /// Whether the answer has been due for `timeout`.
    pub fn timed_out(self, timeout: Duration, now: Instant) -> (answer: bool)
        ensures
            answer == (self.sent_at matches Some(sent_at) && now.elapsed_since(sent_at).nanos
                >= timeout.nanos),
    {
        match self.sent_at {
            Some(sent_at) => now.since(sent_at).nanos >= timeout.nanos,
            None => false,
        }
    }

    pub fn mark_sent(&mut self, sent_at: Instant)
        ensures
            *final(self) == (GatewayHeartbeatAckState { pending: true, sent_at: Some(sent_at) }),
    {
        self.pending = true;
        self.sent_at = Some(sent_at);
    }

    pub fn acknowledge(&mut self)
        ensures
            *final(self) == (GatewayHeartbeatAckState { pending: false, sent_at: None }),
    {
        self.pending = false;
        self.sent_at = None;
    }
}

/// What an event does to a connection, and what is to be done about it.
pub enum Handled {
    Done(StateView, EffectsView),
    /// The session has no description that could be updated.
    NoSession,
    /// The session's codecs are not known here.
    Refused(crate::codecs::CodecRefusal),
}

/// The name that an update leaves in force.
pub open spec fn updated(update: Option<String>, before: Option<String>) -> Option<String> {
    match update {
        Some(name) => Some(name),
        None => before,
    }
}

/// The source of a client that connects: the audio source if it is named.
pub open spec fn client_source(audio_ssrc: Option<u32>, ssrc: Option<u32>) -> Option<u32> {
    match audio_ssrc {
        Some(ssrc) => Some(ssrc),
        None => ssrc,
    }
}

pub open spec fn with_source(users: Map<u32, u64>, ssrc: Option<u32>, user_id: u64) -> Map<
    u32,
    u64,
> {
    match ssrc {
        Some(ssrc) => users.insert(ssrc, user_id),
        None => users,
    }
}

/// Where a transition is executed that encrypts what came in the clear before, media in
/// the clear is still taken for a while.
pub open spec fn grants_grace(dave: DaveView, transition_id: u16) -> bool {
    &&& dave.transition_id == Some(transition_id)
    &&& !encrypting(dave.active_receive)
    &&& encrypting(dave.protocol_version)
}

pub open spec fn handled(state: StateView, event: GatewayTextEvent) -> Handled {
    let none = EffectsView::none();
    let dave_retry = EffectsView { retry_state: true, ..none };
    match event {
        GatewayTextEvent::SessionDescription(description) => match session_codecs(
            description.audio_codec,
            description.video_codec,
            state.config.options.codec_preferences@,
        ) {
            Err(refusal) => Handled::Refused(refusal),
            Ok(codecs) => Handled::Done(
                StateView {
                    dave: state.dave.session_protocol_set(description.dave_protocol_version),
                    session_description: Some(description),
                    codecs: Some(codecs),
                    ..state
                },
                EffectsView {
                    crypto: Some(description.transport_crypto),
                    media_updated: true,
                    ..dave_retry
                },
            ),
        },
        GatewayTextEvent::SessionUpdate { audio_codec, video_codec } => {
            if audio_codec is None && video_codec is None {
                Handled::Done(state, none)
            } else {
                match state.session_description {
                    None => Handled::NoSession,
                    Some(description) => {
                        let audio = updated(audio_codec, description.audio_codec);
                        let video = updated(video_codec, description.video_codec);
                        match session_codecs(
                            audio,
                            video,
                            state.config.options.codec_preferences@,
                        ) {
                            Err(refusal) => Handled::Refused(refusal),
                            Ok(codecs) => Handled::Done(
                                StateView {
                                    session_description: Some(
                                        SessionDescription {
                                            audio_codec: audio,
                                            video_codec: video,
                                            ..description
                                        },
                                    ),
                                    codecs: Some(codecs),
                                    ..state
                                },
                                EffectsView { media_updated: true, ..none },
                            ),
                        }
                    },
                }
            }
        },
        GatewayTextEvent::Resumed => Handled::Done(StateView { resumed: true, ..state }, none),
        GatewayTextEvent::DavePrepareTransition { protocol_version, transition_id } => {
            Handled::Done(
                StateView {
                    dave: state.dave.transition_prepared(transition_id, protocol_version),
                    ..state
                },
                dave_retry,
            )
        },
        GatewayTextEvent::DaveExecuteTransition { transition_id } => Handled::Done(
            StateView { dave: state.dave.transition_executed(transition_id), ..state },
            EffectsView { grace: grants_grace(state.dave, transition_id), ..dave_retry },
        ),
        GatewayTextEvent::DavePrepareEpoch { protocol_version, epoch } => Handled::Done(
            StateView { dave: state.dave.epoch_prepared(protocol_version, epoch), ..state },
            dave_retry,
        ),
        GatewayTextEvent::Speaking(update) => Handled::Done(
            StateView {
                users: match update.user_id {
                    Some(id) => state.users.insert(update.ssrc, id@),
                    None => state.users,
                },
                speaking: state.speaking.insert(update.ssrc, update),
                ..state
            },
            EffectsView { retry_users: true, ..none },
        ),
        GatewayTextEvent::ClientsConnect { user_ids } => Handled::Done(
            StateView {
                roster_authoritative: true,
                connected: state.connected.union(id_numbers(user_ids@).to_set()),
                ..state
            },
            EffectsView {
                clients: if user_ids@.len() == 0 {
                    None
                } else {
                    Some(user_ids@.len() as usize)
                },
                ..dave_retry
            },
        ),
        GatewayTextEvent::ClientConnect { user_id, audio_ssrc, ssrc } => Handled::Done(
            StateView {
                roster_authoritative: true,
                connected: state.connected.insert(user_id@),
                users: with_source(state.users, client_source(audio_ssrc, ssrc), user_id@),
                ..state
            },
            EffectsView { retry_users: true, ..dave_retry },
        ),
        GatewayTextEvent::ClientDisconnect { user_id } => Handled::Done(
            StateView {
                roster_authoritative: true,
                connected: state.connected.remove(user_id@),
                users: others(state.users, user_id@),
                ..state
            },
            EffectsView {
                disconnected: seq![user_id@],
                removed: sources_of(state.users, user_id@),
                ..dave_retry
            },
        ),
        GatewayTextEvent::HeartbeatAck => Handled::Done(state, none),
        GatewayTextEvent::Other => Handled::Done(state, none),
    }
}

/// Takes a text event in. Nothing changes where it is refused.
pub fn handle_text_event(
    state: &mut ConnectionInternalState,
    heartbeat_ack: &mut GatewayHeartbeatAckState,
    event: GatewayTextEvent,
) -> (effects: Result<GatewayEventEffects, Error>)
    ensures
        match handled(old(state)@, event) {
            Handled::Done(after, done) => {
                &&& final(state)@ == after
                &&& effects matches Ok(effects)
                &&& effects@ == done
                &&& effects.removed_ssrcs@.no_duplicates()
            },
            Handled::NoSession => {
                &&& final(state)@ == old(state)@
                &&& effects == Err::<GatewayEventEffects, Error>(
                    Error::Protocol(ProtocolError::MissingSessionDescription),
                )
            },
            Handled::Refused(refusal) => {
                &&& final(state)@ == old(state)@
                &&& effects matches Err(Error::UnsupportedCodec(error))
                &&& says_refusal(error, refusal)
            },
        },
        *final(heartbeat_ack) == (if event is HeartbeatAck {
            GatewayHeartbeatAckState { pending: false, sent_at: None }
        } else {
            *old(heartbeat_ack)
        }),
{
    broadcast use group_hash_axioms;

    let mut effects = GatewayEventEffects::none();
    match event {
        GatewayTextEvent::SessionDescription(description) => {
            return apply_session_description(state, description);
        },
        GatewayTextEvent::SessionUpdate { audio_codec, video_codec } => {
            return apply_session_update(state, audio_codec, video_codec);
        },
        GatewayTextEvent::Resumed => {
            state.resumed = true;
        },
        GatewayTextEvent::DavePrepareTransition { protocol_version, transition_id } => {
            state.dave.prepare_transition(transition_id, protocol_version);
            effects.retry_dave_pending_media.include_retry(DavePendingMediaRetry::dave_state());
        },
        GatewayTextEvent::DaveExecuteTransition { transition_id } => {
            effects.allow_plaintext_receive_grace = state.dave.transition_id() == Some(
                transition_id,
            ) && !crate::state::dave::is_encrypting(state.dave.active_receive_protocol_version())
                && crate::state::dave::is_encrypting(state.dave.protocol_version());
            state.dave.execute_transition(transition_id);
            effects.retry_dave_pending_media.include_retry(DavePendingMediaRetry::dave_state());
        },
        GatewayTextEvent::DavePrepareEpoch { protocol_version, epoch } => {
            state.dave.prepare_epoch(protocol_version, epoch);
            effects.retry_dave_pending_media.include_retry(DavePendingMediaRetry::dave_state());
        },
        GatewayTextEvent::Speaking(update) => {
            if let Some(user_id) = update.user_id {
                let _ = state.ssrc_users.insert(update.ssrc, user_id.get());
            }
            let _ = state.speaking.insert(update.ssrc, update);
            effects.retry_dave_pending_media.include_retry(DavePendingMediaRetry::missing_user());
        },
        GatewayTextEvent::ClientsConnect { user_ids } => {
            state.roster_authoritative = true;
            add_ids(&mut state.connected_user_ids, &user_ids);
            effects.retry_dave_pending_media.include_retry(DavePendingMediaRetry::dave_state());
            if user_ids.len() > 0 {
                effects.clients_connected = Some(user_ids.len());
            }
        },
        GatewayTextEvent::ClientConnect { user_id, audio_ssrc, ssrc } => {
            state.roster_authoritative = true;
            let _ = state.connected_user_ids.insert(user_id.get());
            let source: Option<u32> = match audio_ssrc {
                Some(ssrc) => Some(ssrc),
                None => ssrc,
            };
            if let Some(ssrc) = source {
                let _ = state.ssrc_users.insert(ssrc, user_id.get());
            }
            effects.retry_dave_pending_media.include_retry(DavePendingMediaRetry::missing_user());
            effects.retry_dave_pending_media.include_retry(DavePendingMediaRetry::dave_state());
        },
        GatewayTextEvent::ClientDisconnect { user_id } => {
            let disconnected: u64 = user_id.get();
            effects.disconnected_user_ids.push(disconnected);
            assert(effects.disconnected_user_ids@ =~= seq![disconnected]);
            state.roster_authoritative = true;
            let _ = state.connected_user_ids.remove(&disconnected);
            effects.removed_ssrcs = remove_sources(&mut state.ssrc_users, disconnected);
            effects.retry_dave_pending_media.include_retry(DavePendingMediaRetry::dave_state());
        },
        GatewayTextEvent::HeartbeatAck => {
            heartbeat_ack.acknowledge();
        },
        GatewayTextEvent::Other => {},
    }
    Ok(effects)
}

fn apply_session_description(
    state: &mut ConnectionInternalState,
    description: SessionDescription,
) -> (effects: Result<GatewayEventEffects, Error>)
    ensures
        match handled(old(state)@, GatewayTextEvent::SessionDescription(description)) {
            Handled::Done(after, done) => {
                &&& final(state)@ == after
                &&& effects matches Ok(effects)
                &&& effects@ == done
                &&& effects.removed_ssrcs@.no_duplicates()
            },
            Handled::NoSession => false,
            Handled::Refused(refusal) => {
                &&& final(state)@ == old(state)@
                &&& effects matches Err(Error::UnsupportedCodec(error))
                &&& says_refusal(error, refusal)
            },
        },
{
    let rtp_codecs = match DiscordRtpCodecMap::new(
        &description,
        &state.config.options.codec_preferences,
    ) {
        Ok(codecs) => codecs,
        Err(error) => {
            return Err(Error::UnsupportedCodec(error));
        },
    };
    let mut effects = GatewayEventEffects::none();
    effects.transport_crypto = Some(description.transport_crypto.clone());
    effects.media_session_updated = true;
    state.dave.set_session_protocol(description.dave_protocol_version);
    state.session_description = Some(description);
    state.rtp_codecs = Some(rtp_codecs);
    effects.retry_dave_pending_media.include_retry(DavePendingMediaRetry::dave_state());
    Ok(effects)
}

fn apply_session_update(
    state: &mut ConnectionInternalState,
    audio_codec: Option<String>,
    video_codec: Option<String>,
) -> (effects: Result<GatewayEventEffects, Error>)
    ensures
        match handled(old(state)@, GatewayTextEvent::SessionUpdate { audio_codec, video_codec }) {
            Handled::Done(after, done) => {
                &&& final(state)@ == after
                &&& effects matches Ok(effects)
                &&& effects@ == done
                &&& effects.removed_ssrcs@.no_duplicates()
            },
            Handled::NoSession => {
                &&& final(state)@ == old(state)@
                &&& effects == Err::<GatewayEventEffects, Error>(
                    Error::Protocol(ProtocolError::MissingSessionDescription),
                )
            },
            Handled::Refused(refusal) => {
                &&& final(state)@ == old(state)@
                &&& effects matches Err(Error::UnsupportedCodec(error))
                &&& says_refusal(error, refusal)
            },
        },
{
    let mut effects = GatewayEventEffects::none();
    if audio_codec.is_none() && video_codec.is_none() {
        return Ok(effects);
    }
    let (audio, video) = match &state.session_description {
        Some(description) => (
            match audio_codec {
                Some(name) => Some(name),
                None => copy_name(&description.audio_codec),
            },
            match video_codec {
                Some(name) => Some(name),
                None => copy_name(&description.video_codec),
            },
        ),
        None => {
            return Err(Error::Protocol(ProtocolError::MissingSessionDescription));
        },
    };
    let rtp_codecs = match DiscordRtpCodecMap::from_names(
        &audio,
        &video,
        &state.config.options.codec_preferences,
    ) {
        Ok(codecs) => codecs,
        Err(error) => {
            return Err(Error::UnsupportedCodec(error));
        },
    };
    if let Some(mut description) = state.session_description.take() {
        description.audio_codec = audio;
        description.video_codec = video;
        state.session_description = Some(description);
    }
    state.rtp_codecs = Some(rtp_codecs);
    effects.media_session_updated = true;
    Ok(effects)
}

/// What a binary frame does to a connection, and whether waiting media is tried again.
/// A commit or a welcome without its transition id is refused, but its sequence number
/// counts.
pub open spec fn binary_handled(state: StateView, bytes: Seq<u8>) -> (
    StateView,
    bool,
    Option<Error>,
) {
    match read_binary(bytes) {
        None => (state, false, None),
        Some((seq, opcode, payload)) => {
            let counted = StateView { last_seq: Some(seq), ..state };
            match opcode {
                Opcode::DaveMlsExternalSender => (
                    StateView {
                        dave: DaveView { external_sender: Some(payload), ..state.dave },
                        ..counted
                    },
                    true,
                    None,
                ),
                Opcode::DaveMlsProposals => (
                    StateView {
                        dave: DaveView {
                            proposals: state.dave.proposals.push(payload),
                            ..state.dave
                        },
                        ..counted
                    },
                    true,
                    None,
                ),
                _ => if payload.len() < 2 {
                    (counted, false, Some(too_short(opcode, payload.len() as int)))
                } else {
                    let identity = DaveMlsMessageIdentity {
                        kind: opcode.message_kind()->0,
                        seq,
                        transition_id: crate::bytes::be16(payload[0], payload[1]),
                    };
                    (
                        StateView {
                            dave: DaveView {
                                pending: state.dave.pending.with((identity, payload.skip(2))),
                                ..state.dave
                            },
                            ..counted
                        },
                        true,
                        None,
                    )
                },
            }
        },
    }
}

/// Takes a binary frame in. A frame that is none of the server's is passed over.
pub fn handle_voice_binary_event(state: &mut ConnectionInternalState, bytes: &[u8]) -> (effects:
    Result<GatewayEventEffects, Error>)
    ensures
        ({
            let (after, retried, fault) = binary_handled(old(state)@, bytes@);
            &&& final(state)@ == after
            &&& match fault {
                Some(error) => effects == Err::<GatewayEventEffects, Error>(error),
                None => effects matches Ok(effects) && effects@ == (EffectsView {
                    retry_state: retried,
                    ..EffectsView::none()
                }),
            }
        }),
{
    let mut effects = GatewayEventEffects::none();
    let event = match BinaryEvent::parse(bytes) {
        Some(event) => event,
        None => {
            return Ok(effects);
        },
    };
    state.last_seq = Some(event.seq);
    match event.opcode {
        Opcode::DaveMlsExternalSender => {
            state.dave.set_external_sender(to_vec(event.payload));
        },
        Opcode::DaveMlsProposals => {
            state.dave.push_proposals(to_vec(event.payload));
        },
        _ => {
            let kind = match event.opcode.dave_mls_message_kind() {
                Some(kind) => kind,
                None => {
                    return Ok(effects);
                },
            };
            let payload = match DaveTransitionBinaryPayload::parse(event) {
                Ok(payload) => payload,
                Err(error) => {
                    return Err(error);
                },
            };
            state.dave.set_pending_mls_message(payload.pending_message(kind));
        },
    }
    effects.retry_dave_pending_media.include_retry(DavePendingMediaRetry::dave_state());
    Ok(effects)
}

/// An event that came before the connection was up.
pub enum PendingGatewayEvent {
    Text { seq: Option<i64>, event: GatewayTextEvent },
    Binary(Vec<u8>),
}

/// Why an event that came before the connection was up is refused.
pub enum ReplayFault {
    /// The session has no description that could be updated.
    NoSession,
    /// The session's codecs are not known here.
    Refused(crate::codecs::CodecRefusal),
    /// A binary frame is too short.
    Binary(Error),
}

/// What the events that came before do, up to the first that is refused, and why it is. Of
/// each event by which clients connected, their number comes to those that there are.
pub open spec fn replayed(
    state: StateView,
    clients: Seq<usize>,
    events: Seq<PendingGatewayEvent>,
) -> (StateView, Seq<usize>, Option<ReplayFault>)
    decreases events.len(),
{
    if events.len() == 0 {
        (state, clients, None)
    } else {
        match events[0] {
            PendingGatewayEvent::Text { seq, event } => {
                let counted = StateView {
                    last_seq: match seq {
                        Some(seq) => Some(seq),
                        None => state.last_seq,
                    },
                    ..state
                };
                match handled(counted, event) {
                    Handled::Done(after, effects) => replayed(
                        after,
                        match effects.clients {
                            Some(count) => clients.push(count),
                            None => clients,
                        },
                        events.drop_first(),
                    ),
                    Handled::NoSession => (counted, clients, Some(ReplayFault::NoSession)),
                    Handled::Refused(refusal) => (
                        counted,
                        clients,
                        Some(ReplayFault::Refused(refusal)),
                    ),
                }
            },
            PendingGatewayEvent::Binary(bytes) => {
                let (after, _, fault) = binary_handled(state, bytes@);
                match fault {
                    Some(error) => (after, clients, Some(ReplayFault::Binary(error))),
                    None => replayed(after, clients, events.drop_first()),
                }
            },
        }
    }
}

/// Whether that is what is returned.
pub open spec fn replay_told(fault: Option<ReplayFault>, result: Result<(), Error>) -> bool {
    match fault {
        None => result == Ok::<(), Error>(()),
        Some(ReplayFault::NoSession) => result == Err::<(), Error>(
            Error::Protocol(ProtocolError::MissingSessionDescription),
        ),
        Some(ReplayFault::Refused(refusal)) => result matches Err(Error::UnsupportedCodec(error))
            && says_refusal(error, refusal),
        Some(ReplayFault::Binary(error)) => result == Err::<(), Error>(error),
    }
}

/// Takes in what came before the connection was up, in order. The first event that is
/// refused ends it. How many clients connected by each event is put behind what
/// `clients_connected` holds, also where an event after it is refused.
pub fn replay_pending_voice_events(
    state: &mut ConnectionInternalState,
    events: Vec<PendingGatewayEvent>,
    clients_connected: &mut Vec<usize>,
) -> (result: Result<(), Error>)
    ensures
        ({
            let (after, clients, fault) = replayed(old(state)@, old(clients_connected)@, events@);
            &&& final(state)@ == after
            &&& final(clients_connected)@ == clients
            &&& replay_told(fault, result)
        }),
{
    let mut heartbeat_ack = GatewayHeartbeatAckState::new();
    let ghost end = replayed(state@, clients_connected@, events@);
    let mut rest = events;
    while rest.len() > 0
        invariant
            replayed(state@, clients_connected@, rest@) == end,
            end == replayed(old(state)@, old(clients_connected)@, events@),
        decreases rest@.len(),
    {
        let ghost left = rest@;
        let next = rest.remove(0);
        assert(rest@ =~= left.drop_first());
        match next {
            PendingGatewayEvent::Text { seq, event } => {
                if let Some(seq) = seq {
                    state.last_seq = Some(seq);
                }
                match handle_text_event(state, &mut heartbeat_ack, event) {
                    Ok(effects) => {
                        if let Some(count) = effects.clients_connected {
                            clients_connected.push(count);
                        }
                    },
                    Err(error) => {
                        return Err(error);
                    },
                }
            },
            PendingGatewayEvent::Binary(bytes) => {
                match handle_voice_binary_event(state, bytes.as_slice()) {
                    Ok(_) => {},
                    Err(error) => {
                        return Err(error);
                    },
                }
            },
        }
    }
    Ok(())
}

/// Once a user disconnects, no source is theirs, they are not among the connected, and
/// nobody else's source is forgotten.
pub proof fn law_disconnected_users_are_gone(state: StateView, user_id: DiscordId)
    ensures
        match handled(state, GatewayTextEvent::ClientDisconnect { user_id }) {
            Handled::Done(after, effects) => {
                &&& !after.connected.contains(user_id@)
                &&& forall|ssrc: u32|
                    after.users.dom().contains(ssrc) ==> #[trigger] after.users[ssrc] != user_id@
                &&& forall|ssrc: u32|
                    #![trigger after.users.dom().contains(ssrc)]
                    state.users.dom().contains(ssrc) ==> (after.users.dom().contains(ssrc)
                        != effects.removed.contains(ssrc))
            },
            _ => false,
        },
{
}

/// Whatever comes, the local source, the configuration and the chosen mode stay.
pub proof fn law_events_leave_the_setup(state: StateView, event: GatewayTextEvent)
    ensures
        handled(state, event) matches Handled::Done(after, _) ==> {
            &&& after.config == state.config
            &&& after.ready == state.ready
            &&& after.discovery == state.discovery
            &&& after.selected_mode == state.selected_mode
            &&& after.heartbeat_interval_ms == state.heartbeat_interval_ms
            &&& after.last_seq == state.last_seq
        },
{
}

/// A connection whose session is described has codecs that agree with the description,
/// after every event.
pub proof fn law_codecs_agree_with_the_session(state: StateView, event: GatewayTextEvent)
    requires
        state.session_description matches Some(description) ==> session_codecs(
            description.audio_codec,
            description.video_codec,
            state.config.options.codec_preferences@,
        ) == Ok::<Seq<crate::codec::Codec>, crate::codecs::CodecRefusal>(state.codecs->0)
            && state.codecs is Some,
    ensures
        handled(state, event) matches Handled::Done(after, _) ==> (
        after.session_description matches Some(description) ==> session_codecs(
            description.audio_codec,
            description.video_codec,
            after.config.options.codec_preferences@,
        ) == Ok::<Seq<crate::codec::Codec>, crate::codecs::CodecRefusal>(after.codecs->0)
            && after.codecs is Some),
{
}

} // verus!
