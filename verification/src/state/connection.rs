//! The state of a connection, and what is shown of it.

use super::config::{ConnectionInfo, ConnectionRuntimeConfig};
use super::dave::{DaveInternalState, DaveState, DaveView};
use super::mode::EncryptionMode;
use super::session::{SessionDescription, SessionState};
use crate::codec::Codec;
use crate::codecs::DiscordRtpCodecMap;
use crate::gateway::discovery::UdpDiscoveryPacket;
use crate::gateway::ready::GatewayReady;
use crate::gateway::value::SpeakingUpdate;
use crate::roster::{copy_ids, copy_map};
use std::collections::{HashMap, HashSet};
use vstd::prelude::*;

verus! {

/// What is shown of a connection. It does not change when the connection does.
pub struct ConnectionState {
    pub connection: ConnectionInfo,
    pub heartbeat_interval_ms: u64,
    pub local_ssrc: u32,
    pub selected_mode: EncryptionMode,
    pub session: Option<SessionState>,
    pub connected_user_ids: HashSet<u64>,
    pub ssrc_users: HashMap<u32, u64>,
    pub speaking: HashMap<u32, SpeakingUpdate>,
    pub dave: DaveState,
    pub resumed: bool,
}

/// The state of a connection.
pub struct ConnectionInternalState {
    pub config: ConnectionRuntimeConfig,
    pub heartbeat_interval_ms: u64,
    pub last_seq: Option<i64>,
    pub ready: GatewayReady,
    pub discovery: UdpDiscoveryPacket,
    pub selected_mode: EncryptionMode,
    pub session_description: Option<SessionDescription>,
    pub rtp_codecs: Option<DiscordRtpCodecMap>,
    pub connected_user_ids: HashSet<u64>,
    pub ssrc_users: HashMap<u32, u64>,
    pub speaking: HashMap<u32, SpeakingUpdate>,
    pub dave: DaveInternalState,
    pub roster_authoritative: bool,
    pub resumed: bool,
}

/// The same as a mathematical value.
pub struct StateView {
    pub config: ConnectionRuntimeConfig,
    pub heartbeat_interval_ms: u64,
    pub last_seq: Option<i64>,
    pub ready: GatewayReady,
    pub discovery: UdpDiscoveryPacket,
    pub selected_mode: EncryptionMode,
    pub session_description: Option<SessionDescription>,
    pub codecs: Option<Seq<Codec>>,
    pub connected: Set<u64>,
    pub users: Map<u32, u64>,
    pub speaking: Map<u32, SpeakingUpdate>,
    pub dave: DaveView,
    pub roster_authoritative: bool,
    pub resumed: bool,
}

impl View for ConnectionInternalState {
    type V = StateView;

    open spec fn view(&self) -> StateView {
        StateView {
            config: self.config,
            heartbeat_interval_ms: self.heartbeat_interval_ms,
            last_seq: self.last_seq,
            ready: self.ready,
            discovery: self.discovery,
            selected_mode: self.selected_mode,
            session_description: self.session_description,
            codecs: match self.rtp_codecs {
                Some(codecs) => Some(codecs@),
                None => None,
            },
            connected: self.connected_user_ids@,
            users: self.ssrc_users@,
            speaking: self.speaking@,
            dave: self.dave@,
            roster_authoritative: self.roster_authoritative,
            resumed: self.resumed,
        }
    }
}

impl ConnectionInternalState {
    /// What is shown of it.
    pub fn public_state(&self) -> (state: ConnectionState)
        ensures
            state.connection.guild_id == self@.config.identity.guild_id,
            state.connection.channel_id == self@.config.identity.channel_id,
            state.connection.user_id == self@.config.identity.user_id,
            state.connection.endpoint@ == self@.config.endpoint@,
            state.connection.gateway_version == self@.config.options.gateway_version,
            state.connection.max_dave_protocol_version
                == self@.config.options.max_dave_protocol_version,
            state.heartbeat_interval_ms == self@.heartbeat_interval_ms,
            state.local_ssrc == self@.ready.ssrc,
            state.selected_mode == self@.selected_mode,
            state.session == (match self@.session_description {
                Some(description) => Some(
                    SessionState {
                        mode: description.mode,
                        audio_codec: description.audio_codec,
                        video_codec: description.video_codec,
                        dave_protocol_version: description.dave_protocol_version,
                    },
                ),
                None => None,
            }),
            state.connected_user_ids@ == self@.connected,
            state.ssrc_users@ == self@.users,
            state.speaking@ == self@.speaking,
            state.dave == self@.dave.shown(),
            state.resumed == self@.resumed,
    {
        ConnectionState {
            connection: self.config.public_info(),
            heartbeat_interval_ms: self.heartbeat_interval_ms,
            local_ssrc: self.ready.ssrc,
            selected_mode: self.selected_mode,
            session: match &self.session_description {
                Some(description) => Some(SessionState::of(description)),
                None => None,
            },
            connected_user_ids: copy_ids(&self.connected_user_ids),
            ssrc_users: copy_map(&self.ssrc_users),
            speaking: copy_map(&self.speaking),
            dave: self.dave.public_state(),
            resumed: self.resumed,
        }
    }

    /// The user who speaks from a source, if that is known.
    pub fn user_of(&self, ssrc: u32) -> (user_id: Option<u64>)
        ensures
            user_id == (if self@.users.dom().contains(ssrc) {
                Some(self@.users[ssrc])
            } else {
                None
            }),
    {
        broadcast use vstd::std_specs::hash::group_hash_axioms;

        match self.ssrc_users.get(&ssrc) {
            Some(user_id) => Some(*user_id),
            None => None,
        }
    }
}

} // verus!
