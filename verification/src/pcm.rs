//! Audio samples: their formats, their decoding as far as it is done in integers, and the
//! blocks that encoders and resamplers take.

pub mod blocks;
pub mod chunk;
pub mod encoding;
pub mod resample;
pub mod samples;

pub use blocks::append_stereo_interleaved;
pub use chunk::{PcmChunk, PcmFormat};
pub use encoding::{
    checked_byte_sample_count, validate_channel_alignment, ALaw, ByteSampleEncoding, Mono, MuLaw,
    PcmEncoding, S16Le, SampleEncoding, StereoInterleaved, F32, F32Le, S16,
};
pub use resample::{OutputTrim, ResampleRates, ResampleStep, SourceBuffer};
pub use samples::{decode_alaw, decode_mulaw, interleaved_i16_to_mono_s16le};
