//! Samples with their format.

use super::encoding::{
    channel_fault, checked_byte_sample_count, samples_in, validate_channel_alignment, ALaw, F32Le,
    MuLaw, PcmEncoding, S16Le,
};
use crate::bytes::copy_vec;
use crate::errors::{Error, PcmError};
use crate::nonzero::{NonZeroU32, NonZeroUsize};
use vstd::prelude::*;

verus! {

/// How many samples there are in a second, in how many channels, and how they are written.
#[derive(Clone, Copy, Debug, PartialEq, Eq, Structural)]
pub struct PcmFormat {
    pub sample_rate_hz: NonZeroU32,
    pub channels: NonZeroUsize,
    pub encoding: PcmEncoding,
}

impl PcmFormat {
    pub fn new(sample_rate_hz: NonZeroU32, channels: NonZeroUsize, encoding: PcmEncoding) -> (format:
        Self)
        ensures
            format == (PcmFormat { sample_rate_hz, channels, encoding }),
    {
        PcmFormat { sample_rate_hz, channels, encoding }
    }

    pub fn from_parts(sample_rate_hz: u32, channels: usize, encoding: PcmEncoding) -> (format:
        Result<Self, Error>)
        ensures
            if sample_rate_hz == 0 {
                format == Err::<Self, Error>(Error::Pcm(PcmError::SampleRateZero))
            } else if channels == 0 {
                format == Err::<Self, Error>(Error::Pcm(PcmError::ChannelCountZero))
            } else {
                format matches Ok(format) && format.sample_rate_hz@ == sample_rate_hz
                    && format.channels@ == channels && format.encoding == encoding
            },
    {
        let sample_rate_hz = match NonZeroU32::new(sample_rate_hz) {
            Some(rate) => rate,
            None => {
                return Err(Error::Pcm(PcmError::SampleRateZero));
            },
        };
        let channels = match NonZeroUsize::new(channels) {
            Some(channels) => channels,
            None => {
                return Err(Error::Pcm(PcmError::ChannelCountZero));
            },
        };
        Ok(Self::new(sample_rate_hz, channels, encoding))
    }

    /// One channel.
    pub fn mono(sample_rate_hz: NonZeroU32, encoding: PcmEncoding) -> (format: Self)
        ensures
            format.sample_rate_hz == sample_rate_hz,
            format.channels@ == 1,
            format.encoding == encoding,
    {
        Self::new(sample_rate_hz, NonZeroUsize::one(), encoding)
    }

    pub fn sample_rate_hz(self) -> (rate: NonZeroU32)
        ensures
            rate == self.sample_rate_hz,
    {
        self.sample_rate_hz
    }

    pub fn channels(self) -> (channels: NonZeroUsize)
        ensures
            channels == self.channels,
    {
        self.channels
    }

    pub fn encoding(self) -> (encoding: PcmEncoding)
        ensures
            encoding == self.encoding,
    {
        self.encoding
    }

    /// What is wrong with so many bytes in this format, if anything is.
    pub open spec fn byte_fault(self, byte_len: usize) -> Option<PcmError> {
        match samples_in(self.encoding.sample_name(), self.encoding.width(), byte_len) {
            Err(error) => Some(error),
            Ok(samples) => channel_fault(self.channels@, samples),
        }
    }

    /// Whether so many bytes are whole samples, as many in every channel.
    pub fn validate_bytes(self, byte_len: usize) -> (result: Result<(), Error>)
        ensures
            result == (match self.byte_fault(byte_len) {
                Some(error) => Err::<(), Error>(Error::Pcm(error)),
                None => Ok::<(), Error>(()),
            }),
    {
        let counted = match self.encoding {
            PcmEncoding::F32Le => checked_byte_sample_count::<F32Le>(byte_len),
            PcmEncoding::S16Le => checked_byte_sample_count::<S16Le>(byte_len),
            PcmEncoding::MuLaw => checked_byte_sample_count::<MuLaw>(byte_len),
            PcmEncoding::ALaw => checked_byte_sample_count::<ALaw>(byte_len),
        };
        match counted {
            Ok(samples) => validate_channel_alignment(self.channels.get(), samples),
            Err(error) => Err(error),
        }
    }
}

/// Bytes that are whole samples, as many in every channel.
#[derive(Debug, PartialEq, Eq)]
pub struct PcmChunk {
    format: PcmFormat,
    data: Vec<u8>,
}

impl PcmChunk {
    #[verifier::type_invariant]
    spec fn aligned(self) -> bool {
        self.format.byte_fault(self.data@.len() as usize) is None
    }

    pub closed spec fn of_format(self) -> PcmFormat {
        self.format
    }

    pub closed spec fn bytes(self) -> Seq<u8> {
        self.data@
    }

    pub fn new(
        sample_rate_hz: NonZeroU32,
        channels: NonZeroUsize,
        encoding: PcmEncoding,
        data: Vec<u8>,
    ) -> (chunk: Result<Self, Error>)
        ensures
            Self::made((PcmFormat { sample_rate_hz, channels, encoding }), data@, chunk),
    {
        Self::with_format(PcmFormat::new(sample_rate_hz, channels, encoding), data)
    }

    /// What comes of bytes in a format: a chunk, or what is wrong with them.
    pub open spec fn made(
        format: PcmFormat,
        data: Seq<u8>,
        chunk: Result<Self, Error>,
    ) -> bool {
        match format.byte_fault(data.len() as usize) {
            Some(error) => chunk == Err::<Self, Error>(Error::Pcm(error)),
            None => chunk matches Ok(chunk) && chunk.of_format() == format && chunk.bytes() == data,
        }
    }

    pub fn with_format(format: PcmFormat, data: Vec<u8>) -> (chunk: Result<Self, Error>)
        ensures
            Self::made(format, data@, chunk),
    {
        match format.validate_bytes(data.len()) {
            Ok(()) => Ok(PcmChunk { format, data }),
            Err(error) => Err(error),
        }
    }

    pub fn from_bytes(
        sample_rate_hz: u32,
        channels: usize,
        encoding: PcmEncoding,
        data: Vec<u8>,
    ) -> (chunk: Result<Self, Error>)
        ensures
            if sample_rate_hz == 0 {
                chunk == Err::<Self, Error>(Error::Pcm(PcmError::SampleRateZero))
            } else if channels == 0 {
                chunk == Err::<Self, Error>(Error::Pcm(PcmError::ChannelCountZero))
            } else {
                exists|format: PcmFormat|
                    {
                        &&& format.sample_rate_hz@ == sample_rate_hz
                        &&& format.channels@ == channels
                        &&& format.encoding == encoding
                        &&& #[trigger] Self::made(format, data@, chunk)
                    }
            },
    {
        match PcmFormat::from_parts(sample_rate_hz, channels, encoding) {
            Ok(format) => Self::with_format(format, data),
            Err(error) => Err(error),
        }
    }

    pub fn new_mono(sample_rate_hz: NonZeroU32, encoding: PcmEncoding, data: Vec<u8>) -> (chunk:
        Result<Self, Error>)
        ensures
            exists|format: PcmFormat|
                {
                    &&& format.sample_rate_hz == sample_rate_hz
                    &&& format.channels@ == 1
                    &&& format.encoding == encoding
                    &&& #[trigger] Self::made(format, data@, chunk)
                },
    {
        Self::with_format(PcmFormat::mono(sample_rate_hz, encoding), data)
    }

    pub fn from_mono_bytes(sample_rate_hz: u32, encoding: PcmEncoding, data: Vec<u8>) -> (chunk:
        Result<Self, Error>)
        ensures
            if sample_rate_hz == 0 {
                chunk == Err::<Self, Error>(Error::Pcm(PcmError::SampleRateZero))
            } else {
                exists|format: PcmFormat|
                    {
                        &&& format.sample_rate_hz@ == sample_rate_hz
                        &&& format.channels@ == 1
                        &&& format.encoding == encoding
                        &&& #[trigger] Self::made(format, data@, chunk)
                    }
            },
    {
        Self::from_bytes(sample_rate_hz, 1, encoding, data)
    }

    pub fn sample_rate_hz(&self) -> (rate: NonZeroU32)
        ensures
            rate == self.of_format().sample_rate_hz,
    {
        self.format.sample_rate_hz
    }

    pub fn channels(&self) -> (channels: NonZeroUsize)
        ensures
            channels == self.of_format().channels,
    {
        self.format.channels
    }

    pub fn encoding(&self) -> (encoding: PcmEncoding)
        ensures
            encoding == self.of_format().encoding,
    {
        self.format.encoding
    }

    pub fn format(&self) -> (format: PcmFormat)
        ensures
            format == self.of_format(),
    {
        self.format
    }

    pub fn data(&self) -> (data: &[u8])
        ensures
            data@ == self.bytes(),
    {
        self.data.as_slice()
    }

    /// A second row of the same bytes.
    pub fn data_arc(&self) -> (data: std::sync::Arc<Vec<u8>>)
        ensures
            data@ == self.bytes(),
    {
        std::sync::Arc::new(copy_vec(&self.data))
    }

    pub fn into_data(self) -> (data: Vec<u8>)
        ensures
            data@ == self.bytes(),
    {
        let PcmChunk { format: _, data } = self;
        data
    }

    pub fn is_empty(&self) -> (empty: bool)
        ensures
            empty == (self.bytes().len() == 0),
    {
        self.data.len() == 0
    }

    pub fn byte_len(&self) -> (len: usize)
        ensures
            len == self.bytes().len(),
    {
        self.data.len()
    }

    /// How many samples there are, in all channels together.
    pub open spec fn samples(self) -> int {
        self.bytes().len() as int / self.of_format().encoding.width() as int
    }

    pub fn sample_count(&self) -> (count: usize)
        ensures
            count == self.samples(),
            count * self.of_format().encoding.width() == self.bytes().len(),
            count % self.of_format().channels@ == 0,
    {
        proof {
            use_type_invariant(self);
        }
        let len = self.data.len();
        let width = self.format.encoding.bytes_per_sample();
        proof {
            assert(len % width == 0);
            vstd::arithmetic::div_mod::lemma_fundamental_div_mod(len as int, width as int);
            assert(width as int * (len as int / width as int) == (len as int / width as int)
                * width as int) by (nonlinear_arith);
            let samples = (len as int / width as int) as usize;
            assert(samples_in(self.format.encoding.sample_name(), width, len) == Ok::<
                usize,
                PcmError,
            >(samples));
            assert(channel_fault(self.format.channels@, samples) is None);
        }
        len / width
    }

    /// How many samples there are in each channel.
    pub fn frame_count(&self) -> (count: usize)
        ensures
            count == self.samples() / self.of_format().channels@ as int,
            count * self.of_format().channels@ == self.samples(),
    {
        proof {
            use_type_invariant(self);
        }
        let samples = self.sample_count();
        let channels = self.format.channels.get();
        let len = self.data.len();
        proof {
            assert(samples_in(
                self.format.encoding.sample_name(),
                self.format.encoding.width(),
                len,
            ) == Ok::<usize, PcmError>(samples));
            vstd::arithmetic::div_mod::lemma_fundamental_div_mod(samples as int, channels as int);
            assert(channel_fault(channels, samples) is None);
            assert(channels as int * (samples as int / channels as int) == (samples as int
                / channels as int) * channels as int) by (nonlinear_arith);
        }
        samples / channels
    }

    /// A second chunk of the same samples.
    pub fn copy(&self) -> (copy: Self)
        ensures
            copy.of_format() == self.of_format(),
            copy.bytes() == self.bytes(),
    {
        proof {
            use_type_invariant(self);
        }
        PcmChunk { format: self.format, data: copy_vec(&self.data) }
    }
}

} // verus!
