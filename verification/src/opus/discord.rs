//! Opus as Discord takes it: stereo at 48 kHz, in packets of 20 ms.

pub mod batch;
pub mod config;
pub mod dynamic;
pub mod encoder;
pub mod laws;
pub mod packet;
pub mod playback;

pub use batch::{PacketBatch, PacketRef, PacketSink, PacketSpan};
pub use config::{
    block_duration, Application, EncodeConfig, BLOCK_DURATION_MS, CHANNELS, DEFAULT_BITRATE_BPS,
    MAX_PACKET_BYTES, RTP_PAYLOAD_TYPE, SAMPLES_PER_CHANNEL, SAMPLE_RATE_HZ,
    STEREO_SAMPLES_PER_BLOCK,
};
pub use dynamic::{ChunkCodec, DynamicPcmEncoder};
pub use encoder::{BlockCodec, BlockEncoder};
pub use packet::Packet;
pub use playback::{DynamicPcmSource, PlaybackAudio, PlaybackAudioSource};
