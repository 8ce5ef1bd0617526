//! Decoding the audio that is received.

use super::discord::{CHANNELS, SAMPLE_RATE_HZ};
use crate::codec::Codec;
use crate::errors::{Error, OpusError};
use crate::media::{DecodedFrameMetadata, DecodedPcmLayout, ReceivedFrame};
use vstd::prelude::*;

verus! {

/// How many channels a frame has: its first byte says so.
pub open spec fn channels_in(frame: Seq<u8>) -> Result<usize, OpusError> {
    if frame.len() == 0 {
        Err(OpusError::EmptyFrame)
    } else if frame[0] / 4 % 2 == 1 {
        Ok(2)
    } else {
        Ok(1)
    }
}

pub fn opus_frame_channels(frame: &[u8]) -> (channels: Result<usize, Error>)
    ensures
        match channels_in(frame@) {
            Ok(count) => channels == Ok::<usize, Error>(count),
            Err(error) => channels == Err::<usize, Error>(Error::Opus(error)),
        },
{
    if frame.len() == 0 {
        return Err(Error::Opus(OpusError::EmptyFrame));
    }
    let toc = frame[0];
    assert((toc & 0x04 != 0) == (toc / 4 % 2 == 1)) by (bit_vector);
    if toc & 0x04 != 0 {
        Ok(2)
    } else {
        Ok(1)
    }
}

/// What a decoder is to do for a frame: the number of channels to decode it with. A frame of
/// another codec is refused.
pub fn decoder_channels<Raw>(frame: &ReceivedFrame<Raw>) -> (channels: Result<usize, Error>)
    ensures
        if frame.codec != Codec::Opus {
            channels == Err::<usize, Error>(
                Error::Opus(OpusError::UnsupportedVoiceCodec { codec: frame.codec }),
            )
        } else {
            match channels_in(frame.frame@) {
                Ok(count) => channels == Ok::<usize, Error>(count),
                Err(error) => channels == Err::<usize, Error>(Error::Opus(error)),
            }
        },
{
    if frame.codec != Codec::Opus {
        return Err(Error::Opus(OpusError::UnsupportedVoiceCodec { codec: frame.codec }));
    }
    opus_frame_channels(frame.frame.as_slice())
}

/// The samples in two channels: those of one channel go to both.
pub fn to_stereo(samples: &Vec<i16>, channels: usize, pcm: &mut Vec<i16>)
    requires
        channels == 1 || channels == 2,
    ensures
        final(pcm)@ == (if channels == 1 {
            Seq::new((2 * samples@.len()) as nat, |i: int| samples@[i / 2])
        } else {
            samples@
        }),
{
    pcm.clear();
    let len = samples.len();
    let mut i: usize = 0;
    if channels == 1 {
        while i < len
            invariant
                len == samples@.len(),
                i <= len,
                pcm@.len() == 2 * i,
                forall|k: int| 0 <= k < 2 * i ==> #[trigger] pcm@[k] == samples@[k / 2],
            decreases len - i,
        {
            let sample: i16 = samples[i];
            pcm.push(sample);
            pcm.push(sample);
            i = i + 1;
        }
        assert(pcm@ =~= Seq::new((2 * samples@.len()) as nat, |k: int| samples@[k / 2]));
    } else {
        while i < len
            invariant
                len == samples@.len(),
                i <= len,
                pcm@ == samples@.subrange(0, i as int),
            decreases len - i,
        {
            pcm.push(samples[i]);
            i = i + 1;
        }
        assert(samples@.subrange(0, len as int) =~= samples@);
    }
}

/// What is known of a frame that was decoded to so many samples in each channel.
pub fn decoded_metadata<Raw>(frame: ReceivedFrame<Raw>, samples_per_channel: usize) -> (metadata:
    DecodedFrameMetadata<Raw>)
    ensures
        metadata == (DecodedFrameMetadata {
            frame,
            pcm_layout: DecodedPcmLayout {
                sample_rate_hz: SAMPLE_RATE_HZ,
                channels: CHANNELS,
                samples_per_channel,
            },
        }),
{
    DecodedFrameMetadata {
        frame,
        pcm_layout: DecodedPcmLayout {
            sample_rate_hz: SAMPLE_RATE_HZ,
            channels: CHANNELS,
            samples_per_channel,
        },
    }
}

/// The third bit of a frame's first byte, and nothing else of the frame, says whether it has
/// two channels.
pub proof fn law_frames_say_their_channels(config: u8, stereo: bool, code: u8, rest: Seq<u8>)
    requires
        config < 32,
        code < 4,
    ensures
        ({
            let first = 8 * config + (if stereo {
                4int
            } else {
                0
            }) + code;
            channels_in(seq![first as u8] + rest) == Ok::<usize, OpusError>(
                if stereo {
                    2
                } else {
                    1
                },
            )
        }),
        channels_in(Seq::empty()) is Err,
{
}

} // verus!
