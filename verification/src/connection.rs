//! A voice connection: what is received, what is sent, and when.

pub mod connect;
pub mod driver;
pub mod frames;
pub mod handle;
pub mod heartbeat;
pub mod intake;
pub mod laws;
pub mod pipeline;
pub mod playout;
pub mod receive;
pub mod send;
pub mod stream;
pub mod turns;
pub mod waits;

pub use pipeline::{
    decrypt_state_can_still_change, ReceivePipeline, RetriedMedia, UdpPacketReceives,
};
pub use receive::{
    limit_raw_packet_result, limit_voice_frame_result, LowLevelReceiveKind, ReadyFrameQueue,
    ReceiveReports,
};
pub use send::{
    negotiated_video_media, MediaStep, NegotiatedVideoMedia, OutboundFrame, SendPipeline,
};
