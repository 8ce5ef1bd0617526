//! Opus audio: the packets that Discord takes, and Ogg archives.

pub mod archive;
pub mod decoder;
pub mod discord;
pub mod ogg;
pub mod reader;

pub use archive::{CapturedPcmAudio, OggOpusArchiveEncoder, OggOpusAudioArchive};
pub use decoder::opus_frame_channels;
pub use reader::{OggOpusHead, OggOpusMonoLayout, OggOpusPackets};
