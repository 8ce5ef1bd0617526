//! What Discord takes, and how it is encoded.

use crate::errors::{Error, InvalidInputError};
use crate::nonzero::NonZeroU32;
use crate::time::Duration;
use vstd::prelude::*;

verus! {

pub const SAMPLE_RATE_HZ: u32 = 48_000;

pub const CHANNELS: usize = 2;

pub const BLOCK_DURATION_MS: u64 = 20;

pub const SAMPLES_PER_CHANNEL: usize = 960;

pub const STEREO_SAMPLES_PER_BLOCK: usize = 1_920;

pub const MAX_PACKET_BYTES: usize = 4096;

pub const RTP_PAYLOAD_TYPE: u8 = 120;

pub const DEFAULT_BITRATE_BPS: u32 = 128_000;

/// How long a packet lasts.
pub fn block_duration() -> (duration: Duration)
    ensures
        duration == Duration::millis(BLOCK_DURATION_MS),
        duration.nanos == 20_000_000,
{
    Duration::from_millis(BLOCK_DURATION_MS)
}

/// A block holds the samples of one packet, in both channels.
pub proof fn law_blocks_last_as_long_as_packets()
    ensures
        SAMPLES_PER_CHANNEL * 1_000 == SAMPLE_RATE_HZ * BLOCK_DURATION_MS,
        STEREO_SAMPLES_PER_BLOCK == CHANNELS * SAMPLES_PER_CHANNEL,
{
}

/// What an encoder is tuned for.
#[derive(Clone, Copy, Debug, PartialEq, Eq, Structural)]
pub enum Application {
    Voip,
    Audio,
    RestrictedLowDelay,
}

impl Default for Application {
    fn default() -> (application: Self)
        ensures
            application == Application::Audio,
    {
        Application::Audio
    }
}

/// How audio is encoded.
#[derive(Clone, Copy, Debug, PartialEq, Eq, Structural)]
pub struct EncodeConfig {
    pub application: Application,
    pub bitrate_bps: NonZeroU32,
    pub cbr: bool,
}

impl EncodeConfig {
    /// The bit rate as an encoder takes it; one that it cannot take is refused.
    pub fn encoder_bitrate(&self) -> (bitrate: Result<i32, Error>)
        ensures
            if self.bitrate_bps@ > i32::MAX {
                bitrate == Err::<i32, Error>(
                    Error::InvalidInput(
                        InvalidInputError::OpusBitrateTooLarge { bitrate_bps: self.bitrate_bps@ },
                    ),
                )
            } else {
                bitrate == Ok::<i32, Error>(self.bitrate_bps@ as i32)
            },
    {
        let bitrate_bps: u32 = self.bitrate_bps.get();
        if bitrate_bps > 0x7fff_ffff {
            return Err(
                Error::InvalidInput(InvalidInputError::OpusBitrateTooLarge { bitrate_bps }),
            );
        }
        Ok(bitrate_bps as i32)
    }
}

impl Default for EncodeConfig {
    fn default() -> (config: Self)
        ensures
            config.application == Application::Audio,
            config.bitrate_bps@ == DEFAULT_BITRATE_BPS,
            config.cbr,
    {
        let bitrate_bps = match NonZeroU32::new(DEFAULT_BITRATE_BPS) {
            Some(bitrate) => bitrate,
            None => NonZeroU32::one(),
        };
        EncodeConfig { application: Application::Audio, bitrate_bps, cbr: true }
    }
}

/// Whether samples fill a block of both channels.
pub fn validate_block_samples(samples: usize) -> (result: Result<(), Error>)
    ensures
        result == (if samples != STEREO_SAMPLES_PER_BLOCK {
            Err::<(), Error>(
                Error::InvalidInput(
                    InvalidInputError::PcmBlockSampleCount {
                        expected: STEREO_SAMPLES_PER_BLOCK,
                        actual: samples,
                    },
                ),
            )
        } else {
            Ok::<(), Error>(())
        }),
{
    if samples != STEREO_SAMPLES_PER_BLOCK {
        return Err(
            Error::InvalidInput(
                InvalidInputError::PcmBlockSampleCount {
                    expected: STEREO_SAMPLES_PER_BLOCK,
                    actual: samples,
                },
            ),
        );
    }
    Ok(())
}

/// Whether frames fill a block.
pub fn validate_block_frames(frames: usize) -> (result: Result<(), Error>)
    ensures
        result == (if frames != SAMPLES_PER_CHANNEL {
            Err::<(), Error>(
                Error::InvalidInput(
                    InvalidInputError::PcmBlockFrameCount {
                        expected: SAMPLES_PER_CHANNEL,
                        actual: frames,
                    },
                ),
            )
        } else {
            Ok::<(), Error>(())
        }),
{
    if frames != SAMPLES_PER_CHANNEL {
        return Err(
            Error::InvalidInput(
                InvalidInputError::PcmBlockFrameCount {
                    expected: SAMPLES_PER_CHANNEL,
                    actual: frames,
                },
            ),
        );
    }
    Ok(())
}

/// Whether a packet fits where it is to be written.
pub fn validate_output_len(len: usize) -> (result: Result<(), Error>)
    ensures
        result == (if len < MAX_PACKET_BYTES {
            Err::<(), Error>(
                Error::InvalidInput(
                    InvalidInputError::OpusOutputBufferTooSmall { min_len: MAX_PACKET_BYTES, len },
                ),
            )
        } else {
            Ok::<(), Error>(())
        }),
{
    if len < MAX_PACKET_BYTES {
        return Err(
            Error::InvalidInput(
                InvalidInputError::OpusOutputBufferTooSmall { min_len: MAX_PACKET_BYTES, len },
            ),
        );
    }
    Ok(())
}

/// How many frames of the source a resampler takes at once: those of one block, and at
/// least one.
pub fn source_block_frames(input_sample_rate_hz: NonZeroU32) -> (frames: usize)
    ensures
        frames == (if input_sample_rate_hz@ < 50 {
            1
        } else {
            input_sample_rate_hz@ as int / 50
        }),
{
    let frames: u32 = input_sample_rate_hz.get() / 50;
    if frames == 0 {
        1
    } else {
        frames as usize
    }
}

} // verus!
