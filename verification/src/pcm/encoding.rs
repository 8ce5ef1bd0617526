//! How samples are written down.

use crate::errors::{Error, PcmError};
use crate::text::{copy_text, same_text};
use vstd::prelude::*;

verus! {

/// How samples are written as bytes.
#[derive(Clone, Copy, Debug, PartialEq, Eq, Structural)]
pub enum PcmEncoding {
    F32Le,
    S16Le,
    MuLaw,
    ALaw,
}

impl PcmEncoding {
    /// The name by which an encoding is asked for.
    pub open spec fn wire_name(self) -> &'static str {
        match self {
            PcmEncoding::F32Le => "pcm_f32le",
            PcmEncoding::S16Le => "pcm_s16le",
            PcmEncoding::MuLaw => "pcm_mulaw",
            PcmEncoding::ALaw => "pcm_alaw",
        }
    }

    /// The name of its samples.
    pub open spec fn sample_name(self) -> &'static str {
        match self {
            PcmEncoding::F32Le => "f32le",
            PcmEncoding::S16Le => "s16le",
            PcmEncoding::MuLaw => "mulaw",
            PcmEncoding::ALaw => "alaw",
        }
    }

    /// How many bytes a sample takes.
    pub open spec fn width(self) -> usize {
        match self {
            PcmEncoding::F32Le => 4,
            PcmEncoding::S16Le => 2,
            PcmEncoding::MuLaw => 1,
            PcmEncoding::ALaw => 1,
        }
    }

    /// The encoding of that name; any other name is refused.
    pub fn parse(value: &str) -> (encoding: Result<Self, Error>)
        ensures
            match encoding {
                Ok(encoding) => value@ == encoding.wire_name()@,
                Err(error) => {
                    &&& forall|known: PcmEncoding| value@ != (#[trigger] known.wire_name())@
                    &&& error matches Error::Pcm(PcmError::UnsupportedEncoding(name)) && name@
                        == value@
                },
            },
    {
        if same_text(value, "pcm_f32le") {
            return Ok(PcmEncoding::F32Le);
        }
        if same_text(value, "pcm_s16le") {
            return Ok(PcmEncoding::S16Le);
        }
        if same_text(value, "pcm_mulaw") {
            return Ok(PcmEncoding::MuLaw);
        }
        if same_text(value, "pcm_alaw") {
            return Ok(PcmEncoding::ALaw);
        }
        Err(Error::Pcm(PcmError::UnsupportedEncoding(copy_text(value))))
    }

    pub fn as_str(self) -> (name: &'static str)
        ensures
            name == self.wire_name(),
    {
        match self {
            PcmEncoding::F32Le => "pcm_f32le",
            PcmEncoding::S16Le => "pcm_s16le",
            PcmEncoding::MuLaw => "pcm_mulaw",
            PcmEncoding::ALaw => "pcm_alaw",
        }
    }

    pub fn sample_encoding_name(self) -> (name: &'static str)
        ensures
            name == self.sample_name(),
    {
        match self {
            PcmEncoding::F32Le => "f32le",
            PcmEncoding::S16Le => "s16le",
            PcmEncoding::MuLaw => "mulaw",
            PcmEncoding::ALaw => "alaw",
        }
    }

    pub fn bytes_per_sample(self) -> (width: usize)
        ensures
            width == self.width(),
    {
        match self {
            PcmEncoding::F32Le => 4,
            PcmEncoding::S16Le => 2,
            PcmEncoding::MuLaw => 1,
            PcmEncoding::ALaw => 1,
        }
    }
}

/// Every encoding is found by its name, and no two have the same.
pub proof fn law_encoding_names_are_distinct(a: PcmEncoding, b: PcmEncoding)
    ensures
        a.wire_name()@ == b.wire_name()@ ==> a == b,
{
    reveal_strlit("pcm_f32le");
    reveal_strlit("pcm_s16le");
    reveal_strlit("pcm_mulaw");
    reveal_strlit("pcm_alaw");
    assert("pcm_f32le"@[4] == 'f');
    assert("pcm_s16le"@[4] == 's');
    assert("pcm_mulaw"@[4] == 'm');
    assert("pcm_alaw"@[4] == 'a');
}

/// A kind of sample.
pub trait SampleEncoding: Sized {
    spec fn sample_name() -> &'static str;

    fn name() -> (name: &'static str)
        ensures
            name == Self::sample_name(),
    ;
}

/// A kind of sample that is written as bytes.
pub trait ByteSampleEncoding: SampleEncoding {
    spec fn width() -> usize;

    fn bytes_per_sample() -> (width: usize)
        ensures
            width == Self::width(),
            width > 0,
    ;
}

#[derive(Clone, Copy, Debug, PartialEq, Eq, Structural)]
pub struct F32;

impl SampleEncoding for F32 {
    open spec fn sample_name() -> &'static str {
        "f32"
    }

    fn name() -> (name: &'static str) {
        "f32"
    }
}

#[derive(Clone, Copy, Debug, PartialEq, Eq, Structural)]
pub struct F32Le;

impl SampleEncoding for F32Le {
    open spec fn sample_name() -> &'static str {
        "f32le"
    }

    fn name() -> (name: &'static str) {
        "f32le"
    }
}

impl ByteSampleEncoding for F32Le {
    open spec fn width() -> usize {
        4
    }

    fn bytes_per_sample() -> (width: usize) {
        4
    }
}

#[derive(Clone, Copy, Debug, PartialEq, Eq, Structural)]
pub struct S16;

impl SampleEncoding for S16 {
    open spec fn sample_name() -> &'static str {
        "s16"
    }

    fn name() -> (name: &'static str) {
        "s16"
    }
}

#[derive(Clone, Copy, Debug, PartialEq, Eq, Structural)]
pub struct S16Le;

impl SampleEncoding for S16Le {
    open spec fn sample_name() -> &'static str {
        "s16le"
    }

    fn name() -> (name: &'static str) {
        "s16le"
    }
}

impl ByteSampleEncoding for S16Le {
    open spec fn width() -> usize {
        2
    }

    fn bytes_per_sample() -> (width: usize) {
        2
    }
}

#[derive(Clone, Copy, Debug, PartialEq, Eq, Structural)]
pub struct MuLaw;

impl SampleEncoding for MuLaw {
    open spec fn sample_name() -> &'static str {
        "mulaw"
    }

    fn name() -> (name: &'static str) {
        "mulaw"
    }
}

impl ByteSampleEncoding for MuLaw {
    open spec fn width() -> usize {
        1
    }

    fn bytes_per_sample() -> (width: usize) {
        1
    }
}

#[derive(Clone, Copy, Debug, PartialEq, Eq, Structural)]
pub struct ALaw;

impl SampleEncoding for ALaw {
    open spec fn sample_name() -> &'static str {
        "alaw"
    }

    fn name() -> (name: &'static str) {
        "alaw"
    }
}

impl ByteSampleEncoding for ALaw {
    open spec fn width() -> usize {
        1
    }

    fn bytes_per_sample() -> (width: usize) {
        1
    }
}

/// One channel.
#[derive(Clone, Copy, Debug, PartialEq, Eq, Structural)]
pub struct Mono;

/// Two channels, a sample of each in turn.
#[derive(Clone, Copy, Debug, PartialEq, Eq, Structural)]
pub struct StereoInterleaved;

/// What is wrong with so many samples in so many channels, if anything is.
pub open spec fn channel_fault(channels: usize, samples: usize) -> Option<PcmError> {
    if channels == 0 {
        Some(PcmError::ChannelCountZero)
    } else if samples % channels != 0 {
        Some(PcmError::ChannelAlignment { channels, samples })
    } else {
        None
    }
}

/// Whether samples fill all channels alike.
pub fn validate_channel_alignment(channels: usize, samples: usize) -> (result: Result<(), Error>)
    ensures
        result == (match channel_fault(channels, samples) {
            Some(error) => Err::<(), Error>(Error::Pcm(error)),
            None => Ok::<(), Error>(()),
        }),
{
    if channels == 0 {
        return Err(Error::Pcm(PcmError::ChannelCountZero));
    }
    if samples % channels != 0 {
        return Err(Error::Pcm(PcmError::ChannelAlignment { channels, samples }));
    }
    Ok(())
}

/// How many samples of one width so many bytes are, or that they are not.
pub open spec fn samples_in(
    name: &'static str,
    width: usize,
    byte_len: usize,
) -> Result<usize, PcmError> {
    if byte_len % width != 0 {
        Err(PcmError::SampleAlignment { encoding: name, byte_len, sample_bytes: width })
    } else {
        Ok((byte_len as int / width as int) as usize)
    }
}

/// How many samples so many bytes are.
pub fn checked_byte_sample_count<E>(byte_len: usize) -> (count: Result<usize, Error>) where
    E: ByteSampleEncoding,

    ensures
        count == (match samples_in(E::sample_name(), E::width(), byte_len) {
            Ok(samples) => Ok::<usize, Error>(samples),
            Err(error) => Err::<usize, Error>(Error::Pcm(error)),
        }),
{
    let sample_bytes = E::bytes_per_sample();
    if byte_len % sample_bytes != 0 {
        return Err(
            Error::Pcm(
                PcmError::SampleAlignment { encoding: E::name(), byte_len, sample_bytes },
            ),
        );
    }
    Ok(byte_len / sample_bytes)
}

/// A sample takes the bytes that its bits fill: 32 as a float, 16 as a whole number, 8 under
/// either law.
pub proof fn law_widths_are_bits(encoding: PcmEncoding)
    ensures
        8 * encoding.width() == (match encoding {
            PcmEncoding::F32Le => 32int,
            PcmEncoding::S16Le => 16,
            PcmEncoding::MuLaw => 8,
            PcmEncoding::ALaw => 8,
        }),
{
}

/// Bytes are samples where whole samples make them up, and then so many; samples fill
/// channels where each channel gets as many.
pub proof fn law_samples_make_up_the_bytes(
    name: &'static str,
    width: usize,
    count: usize,
    extra: usize,
)
    requires
        0 < width,
        extra < width,
        count * width + extra <= usize::MAX,
    ensures
        samples_in(name, width, (count * width + extra) as usize) is Ok == (extra == 0),
        extra == 0 ==> samples_in(name, width, (count * width) as usize) == Ok::<usize, PcmError>(
            count,
        ),
        channel_fault(0, count) is Some,
{
    let len = count * width + extra;
    assert(0 <= count * width) by (nonlinear_arith);
    vstd::arithmetic::div_mod::lemma_fundamental_div_mod_converse(
        len,
        width as int,
        count as int,
        extra as int,
    );
}

/// Samples fill channels where each channel gets as many, and in no other case.
pub proof fn law_channels_are_filled_alike(channels: usize, frames: usize, extra: usize)
    requires
        extra < channels,
        frames * channels + extra <= usize::MAX,
    ensures
        channel_fault(channels, (frames * channels + extra) as usize) is None == (extra == 0),
{
    let samples = frames * channels + extra;
    assert(0 <= frames * channels) by (nonlinear_arith);
    vstd::arithmetic::div_mod::lemma_fundamental_div_mod_converse(
        samples,
        channels as int,
        frames as int,
        extra as int,
    );
}

} // verus!
