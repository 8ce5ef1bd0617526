//! The voice gateway's protocol.

pub mod binary;
pub mod command;
pub mod discovery;
pub mod event;
pub mod laws;
pub mod opcode;
pub mod ready;
pub mod value;

pub use binary::BinaryEvent;
pub use command::{
    identify_payload, DaveInvalidCommitWelcomeCommand, DaveTransitionReadyCommand, GatewayCommand,
    HeartbeatCommand, SelectProtocolCommand, SpeakingCommand,
};
pub use discovery::UdpDiscoveryPacket;
pub use event::{
    handle_text_event, handle_voice_binary_event, replay_pending_voice_events,
    GatewayEventEffects, GatewayHeartbeatAckState, GatewayTextEvent, PendingGatewayEvent,
};
pub use opcode::Opcode;
pub use ready::{GatewayReady, GatewayReadyStream, GatewayReadyVideoStream};
pub use value::{DiscordId, SpeakingFlags, SpeakingUpdate};
