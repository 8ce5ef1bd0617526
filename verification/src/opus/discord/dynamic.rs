//! Chunks on their way to packets.

use super::batch::{PacketBatch, PacketSink};
use super::config::SAMPLE_RATE_HZ;
use super::encoder::{BlockCodec, BlockEncoder};
use super::packet::Packet;
use super::playback::{capped_sum, channels_refusal, format_refusal, DynamicPcmSource};
use crate::errors::{Error, InvalidInputError, PcmError};
use crate::pcm::blocks::{append_stereo_interleaved, twice};
use crate::pcm::encoding::validate_channel_alignment;
use crate::pcm::{PcmChunk, PcmEncoding, PcmFormat};
use vstd::prelude::*;
use vstd::slice::slice_subrange;

verus! {

/// What reads the samples of a source, brings them to the rate of Discord, and makes packets
/// of them. Nothing is taken for granted of it.
pub trait ChunkCodec<T>: BlockCodec<T> {
    fn for_format(format: PcmFormat) -> Result<Self, Error>;

    /// A sample that is not heard.
    fn silence(&self) -> T;

    /// The sample that these bytes are.
    fn sample(&self, encoding: PcmEncoding, bytes: &[u8]) -> T
        requires
            bytes@.len() == encoding.width(),
    ;

    /// Takes samples of the source, and gives those of the other rate that come of them.
    fn resample(self, samples: &[T]) -> (Self, Result<Vec<T>, Error>);

    /// Gives what is left once the source has ended.
    fn resample_rest(self) -> (Self, Result<Vec<T>, Error>);
}

/// Whether that is the sample that a codec read.
pub open spec fn sample_read<T, C: ChunkCodec<T>>(
    codec: C,
    encoding: PcmEncoding,
    bytes: Seq<u8>,
    sample: T,
) -> bool {
    exists|slice: &[u8]|
        slice@ == bytes && #[trigger] call_ensures(C::sample, (&codec, encoding, slice), sample)
}

/// The bytes of a sample in a chunk.
pub open spec fn sample_bytes(chunk: PcmChunk, at: int) -> Seq<u8> {
    let width = chunk.of_format().encoding.width() as int;
    chunk.bytes().subrange(at * width, at * width + width)
}

/// Whether these are all samples of a chunk, as many in every channel, as a codec reads them.
pub open spec fn samples_read<T, C: ChunkCodec<T>>(
    codec: C,
    chunk: PcmChunk,
    samples: Seq<T>,
) -> bool {
    &&& samples.len() == chunk.samples()
    &&& samples.len() % chunk.of_format().channels@ as nat == 0
    &&& forall|i: int|
        0 <= i < samples.len() ==> sample_read(
            codec,
            chunk.of_format().encoding,
            sample_bytes(chunk, i),
            #[trigger] samples[i],
        )
}

/// What a codec makes of samples at a rate. Those of the rate of Discord are kept, and where
/// there are none it is not asked.
pub open spec fn at_rate<T, C: ChunkCodec<T>>(
    before: C,
    after: C,
    rate: u32,
    samples: Seq<T>,
    result: Result<Vec<T>, Error>,
) -> bool {
    if rate == SAMPLE_RATE_HZ || samples.len() == 0 {
        after == before && (result matches Ok(kept) && kept@ == samples)
    } else {
        exists|slice: &[T]|
            {
                &&& slice@ == samples
                &&& #[trigger] call_ensures(C::resample, (before, slice), (after, result))
            }
    }
}

/// What a codec still holds of a source of a rate: of that of Discord nothing.
pub open spec fn rest_at_rate<T, C: ChunkCodec<T>>(
    before: C,
    after: C,
    rate: u32,
    result: Result<Vec<T>, Error>,
) -> bool {
    if rate == SAMPLE_RATE_HZ {
        after == before && (result matches Ok(rest) && rest@ == Seq::<T>::empty())
    } else {
        call_ensures(C::resample_rest, (before,), (after, result))
    }
}

/// Samples of a source as two channels: one channel goes to both.
pub open spec fn as_stereo<T>(channels: usize, samples: Seq<T>) -> Seq<T> {
    if channels == 2 {
        samples
    } else {
        twice(samples)
    }
}

/// Why samples are not two channels of one length, where there are two.
pub open spec fn stereo_refusal(channels: usize, samples: int) -> Option<Error> {
    if channels == 2 && samples % 2 != 0 {
        Some(
            Error::Pcm(PcmError::ChannelAlignment { channels: 2, samples: samples as usize }),
        )
    } else {
        None
    }
}

/// Makes two channels of one, or keeps two.
fn stereo_of<T: Copy>(channels: usize, samples: Vec<T>) -> (stereo: Result<Vec<T>, Error>)
    ensures
        match stereo_refusal(channels, samples@.len() as int) {
            Some(error) => stereo == Err::<Vec<T>, Error>(error),
            None => stereo matches Ok(stereo) && stereo@ == as_stereo(channels, samples@),
        },
{
    if channels == 2 {
        match validate_channel_alignment(2, samples.len()) {
            Ok(()) => Ok(samples),
            Err(error) => Err(error),
        }
    } else {
        let mut stereo: Vec<T> = Vec::new();
        append_stereo_interleaved(samples.as_slice(), &mut stereo);
        assert(stereo@ =~= twice(samples@));
        Ok(stereo)
    }
}

/// Reads the samples of a chunk.
fn read_samples<T, C: ChunkCodec<T>>(codec: &C, chunk: &PcmChunk) -> (samples: Vec<T>)
    ensures
        samples_read(*codec, *chunk, samples@),
{
    let encoding = chunk.encoding();
    let width = encoding.bytes_per_sample();
    let count = chunk.sample_count();
    let data = chunk.data();
    let len = data.len();
    let mut samples: Vec<T> = Vec::new();
    let mut at: usize = 0;
    let mut i: usize = 0;
    while i < count
        invariant
            i <= count,
            samples@.len() == i,
            encoding == chunk.of_format().encoding,
            width == encoding.width(),
            width > 0,
            at == i * width,
            count * width == len,
            len == data@.len(),
            data@ == chunk.bytes(),
            forall|k: int|
                0 <= k < samples@.len() ==> sample_read(
                    *codec,
                    encoding,
                    sample_bytes(*chunk, k),
                    #[trigger] samples@[k],
                ),
        decreases count - i,
    {
        assert((i + 1) * width == i * width + width) by (nonlinear_arith);
        assert((i + 1) * width <= count * width) by (nonlinear_arith)
            requires
                i + 1 <= count,
                width > 0,
        ;
        let end: usize = at + width;
        let bytes = slice_subrange(data, at, end);
        let sample = codec.sample(encoding, bytes);
        assert(sample_read(*codec, encoding, sample_bytes(*chunk, i as int), sample));
        samples.push(sample);
        at = end;
        i = i + 1;
    }
    samples
}

/// Brings samples to the rate of Discord.
fn bring<T: Copy, C: ChunkCodec<T>>(codec: C, rate: u32, samples: Vec<T>) -> (brought: (
    C,
    Result<Vec<T>, Error>,
))
    ensures
        at_rate(codec, brought.0, rate, samples@, brought.1),
{
    if rate == SAMPLE_RATE_HZ || samples.len() == 0 {
        (codec, Ok(samples))
    } else {
        codec.resample(samples.as_slice())
    }
}

/// Takes what a codec still holds.
fn bring_rest<T: Copy, C: ChunkCodec<T>>(codec: C, rate: u32) -> (brought: (
    C,
    Result<Vec<T>, Error>,
))
    ensures
        rest_at_rate(codec, brought.0, rate, brought.1),
{
    if rate == SAMPLE_RATE_HZ {
        (codec, Ok(Vec::new()))
    } else {
        codec.resample_rest()
    }
}

impl<T: Copy> BlockEncoder<T> {
    /// What comes of samples at the rate of Discord: as two channels they are cut into
    /// blocks. Where they could not be had, or are no two channels, nothing happens.
    pub open spec fn brought_encoded<C: BlockCodec<T>>(
        self,
        after: Self,
        channels: usize,
        samples: Result<Vec<T>, Error>,
        codec: C,
        next_codec: C,
        old_packets: Seq<Seq<u8>>,
        new_packets: Seq<Seq<u8>>,
        made: Result<usize, Error>,
    ) -> bool {
        let refusal = match samples {
            Err(error) => Some(error),
            Ok(samples) => stereo_refusal(channels, samples@.len() as int),
        };
        match refusal {
            Some(error) => {
                &&& made == Err::<usize, Error>(error)
                &&& after == self
                &&& next_codec == codec
                &&& new_packets == old_packets
            },
            None => self.encoded(
                after,
                as_stereo(channels, samples->Ok_0@),
                codec,
                next_codec,
                old_packets,
                new_packets,
                made,
            ),
        }
    }

    fn encode_brought<C: BlockCodec<T>, S: PacketSink>(
        &mut self,
        channels: usize,
        samples: Result<Vec<T>, Error>,
        codec: C,
        sink: &mut S,
    ) -> (made: (C, Result<usize, Error>))
        ensures
            old(self).brought_encoded(
                *final(self),
                channels,
                samples,
                codec,
                made.0,
                old(sink).packets(),
                final(sink).packets(),
                made.1,
            ),
            made.1 matches Ok(count) ==> count < usize::MAX,
    {
        let samples = match samples {
            Ok(samples) => samples,
            Err(error) => {
                return (codec, Err(error));
            },
        };
        let stereo = match stereo_of(channels, samples) {
            Ok(stereo) => stereo,
            Err(error) => {
                return (codec, Err(error));
            },
        };
        let len = stereo.len();
        let made = self.encode_stereo(codec, stereo.as_slice(), sink);
        assert(made.1 matches Ok(count) ==> count <= len / 1_920 + 1);
        made
    }

    /// What comes of a chunk: the codec reads its samples and brings them to the rate of
    /// Discord, and they are cut into blocks.
    pub open spec fn chunk_encoded<C: ChunkCodec<T>>(
        self,
        after: Self,
        chunk: PcmChunk,
        codec: C,
        next_codec: C,
        old_packets: Seq<Seq<u8>>,
        new_packets: Seq<Seq<u8>>,
        made: Result<usize, Error>,
    ) -> bool {
        exists|source: Seq<T>, between: C, samples: Result<Vec<T>, Error>|
            {
                &&& samples_read(codec, chunk, source)
                &&& #[trigger] at_rate(
                    codec,
                    between,
                    chunk.of_format().sample_rate_hz@,
                    source,
                    samples,
                )
                &&& self.brought_encoded(
                    after,
                    chunk.of_format().channels@,
                    samples,
                    between,
                    next_codec,
                    old_packets,
                    new_packets,
                    made,
                )
            }
    }

    fn encode_chunk<C: ChunkCodec<T>, S: PacketSink>(
        &mut self,
        codec: C,
        chunk: &PcmChunk,
        sink: &mut S,
    ) -> (made: (C, Result<usize, Error>))
        ensures
            old(self).chunk_encoded(
                *final(self),
                *chunk,
                codec,
                made.0,
                old(sink).packets(),
                final(sink).packets(),
                made.1,
            ),
    {
        let source = read_samples(&codec, chunk);
        let ghost read = source@;
        let rate = chunk.sample_rate_hz().get();
        let (between, samples) = bring(codec, rate, source);
        assert(at_rate(codec, between, rate, read, samples));
        self.encode_brought(chunk.channels().get(), samples, between, sink)
    }

    /// What comes of the end of a source: what the codec still holds is cut into blocks, and
    /// the block that was begun is filled up.
    pub open spec fn source_finished<C: ChunkCodec<T>>(
        self,
        after: Self,
        format: PcmFormat,
        codec: C,
        next_codec: C,
        old_packets: Seq<Seq<u8>>,
        new_packets: Seq<Seq<u8>>,
        made: Result<usize, Error>,
    ) -> bool {
        exists|samples: Result<Vec<T>, Error>, brought: C, blocks: Self, cut: C, rows: Seq<Seq<u8>>,
            first: Result<usize, Error>|
            {
                &&& #[trigger] rest_at_rate(codec, brought, format.sample_rate_hz@, samples)
                &&& #[trigger] self.brought_encoded(
                    blocks,
                    format.channels@,
                    samples,
                    brought,
                    cut,
                    old_packets,
                    rows,
                    first,
                )
                &&& match first {
                    Err(error) => {
                        &&& made == Err::<usize, Error>(error)
                        &&& after == blocks
                        &&& next_codec == cut
                        &&& new_packets == rows
                    },
                    Ok(count) => exists|silence: T, last: Result<usize, Error>|
                        {
                            &&& call_ensures(C::silence, (&cut,), silence)
                            &&& #[trigger] blocks.finished(
                                after,
                                silence,
                                cut,
                                next_codec,
                                rows,
                                new_packets,
                                last,
                            )
                            &&& made == (match last {
                                Ok(more) => Ok::<usize, Error>((count + more) as usize),
                                Err(error) => Err::<usize, Error>(error),
                            })
                        },
                }
            }
    }

    fn finish_source<C: ChunkCodec<T>, S: PacketSink>(
        &mut self,
        codec: C,
        format: PcmFormat,
        sink: &mut S,
    ) -> (made: (C, Result<usize, Error>))
        ensures
            old(self).source_finished(
                *final(self),
                format,
                codec,
                made.0,
                old(sink).packets(),
                final(sink).packets(),
                made.1,
            ),
    {
        let ghost before = *self;
        let ghost packets = sink.packets();
        let (brought, samples) = bring_rest(codec, format.sample_rate_hz.get());
        assert(rest_at_rate(codec, brought, format.sample_rate_hz@, samples));
        let (cut, first) = self.encode_brought(format.channels.get(), samples, brought, sink);
        let ghost blocks = *self;
        let ghost rows = sink.packets();
        assert(before.brought_encoded(
            blocks,
            format.channels@,
            samples,
            brought,
            cut,
            packets,
            rows,
            first,
        ));
        let count = match first {
            Ok(count) => count,
            Err(error) => {
                return (cut, Err(error));
            },
        };
        let silence = cut.silence();
        let (next, last) = self.finish(cut, silence, sink);
        assert(blocks.finished(*self, silence, cut, next, rows, sink.packets(), last));
        match last {
            Ok(more) => (next, Ok(count + more)),
            Err(error) => (next, Err(error)),
        }
    }
}

/// Makes packets of chunks whose format the first one gives.
pub struct DynamicPcmEncoder<T, C> {
    pub source: DynamicPcmSource,
    pub codec: Option<C>,
    pub blocks: BlockEncoder<T>,
}

impl<T: Copy, C: ChunkCodec<T>> DynamicPcmEncoder<T, C> {
    pub fn new() -> (encoder: Self)
        ensures
            encoder.source == (DynamicPcmSource {
                source_format: None,
                source_pcm_bytes: 0,
                encoder_ready: false,
            }),
            encoder.codec is None,
            encoder.blocks.waiting() == Seq::<T>::empty(),
            encoder.well_formed(),
    {
        DynamicPcmEncoder {
            source: DynamicPcmSource::new(),
            codec: None,
            blocks: BlockEncoder::new(),
        }
    }

    /// Whether there is a codec exactly where the source says so.
    pub open spec fn well_formed(self) -> bool {
        &&& self.codec is Some == self.source.encoder_ready
        &&& self.source.encoder_ready ==> self.source.source_format is Some
    }

    /// Why a chunk of a format is refused without a look at its samples, if it is: its format
    /// is another, or there is no codec for it.
    pub open spec fn refusal(self, format: PcmFormat) -> Option<Error> {
        match self.source.source_format {
            None => channels_refusal(format.channels@),
            Some(existing) => format_refusal(existing, format),
        }
    }

    /// The codec for a chunk: the first chunk has one made.
    pub open spec fn codec_for(self, format: PcmFormat, codec: Result<C, Error>) -> bool {
        match self.source.source_format {
            None => call_ensures(C::for_format, (format,), codec),
            Some(_) => codec == (match self.codec {
                Some(codec) => Ok::<C, Error>(codec),
                None => Err::<C, Error>(
                    Error::InvalidInput(InvalidInputError::DiscordPcmEncoderUninitialized),
                ),
            }),
        }
    }

    /// What comes of a chunk. A chunk that is refused changes nothing but the format, where
    /// it is the first. It is counted once there is a codec, or was none from the start.
    pub open spec fn pushed(
        self,
        after: Self,
        chunk: PcmChunk,
        old_packets: Seq<Seq<u8>>,
        new_packets: Seq<Seq<u8>>,
        made: Result<usize, Error>,
    ) -> bool {
        let format = chunk.of_format();
        let first = self.source.source_format is None;
        let counted = capped_sum(
            self.source.source_pcm_bytes as int,
            chunk.bytes().len() as int,
        );
        &&& after.source.source_format == (if first {
            Some(format)
        } else {
            self.source.source_format
        })
        &&& match self.refusal(format) {
            Some(error) => {
                &&& made == Err::<usize, Error>(error)
                &&& after.source.source_pcm_bytes == self.source.source_pcm_bytes
                &&& after.codec == self.codec
                &&& after.blocks == self.blocks
                &&& new_packets == old_packets
            },
            None => exists|codec: Result<C, Error>|
                {
                    &&& #[trigger] self.codec_for(format, codec)
                    &&& match codec {
                        Err(error) => {
                            &&& made == Err::<usize, Error>(error)
                            &&& after.source.source_pcm_bytes == (if first {
                                self.source.source_pcm_bytes
                            } else {
                                counted
                            })
                            &&& after.codec is None
                            &&& after.blocks == self.blocks
                            &&& new_packets == old_packets
                        },
                        Ok(codec) => {
                            &&& after.source.source_pcm_bytes == counted
                            &&& after.codec matches Some(next)
                            &&& self.blocks.chunk_encoded(
                                after.blocks,
                                chunk,
                                codec,
                                next,
                                old_packets,
                                new_packets,
                                made,
                            )
                        },
                    }
                },
        }
    }

    /// Takes a chunk, and says how many packets were made of it and what waited.
    pub fn push_chunk_to<S: PacketSink>(&mut self, chunk: &PcmChunk, sink: &mut S) -> (made: Result<
        usize,
        Error,
    >)
        requires
            old(self).well_formed(),
        ensures
            final(self).well_formed(),
            old(self).pushed(
                *final(self),
                *chunk,
                old(sink).packets(),
                final(sink).packets(),
                made,
            ),
    {
        let fresh = self.source.source_format.is_none();
        let format = chunk.format();
        if let Err(error) = self.source.accept_format(format) {
            return Err(error);
        }
        if fresh {
            let started = C::for_format(format);
            assert(old(self).codec_for(format, started));
            match started {
                Ok(codec) => {
                    self.codec = Some(codec);
                },
                Err(error) => {
                    self.codec = None;
                    self.source.encoder_ready = false;
                    return Err(error);
                },
            }
        }
        self.source.source_pcm_bytes = self.source.source_pcm_bytes.saturating_add(
            chunk.byte_len(),
        );
        let mut slot: Option<C> = None;
        std::mem::swap(&mut slot, &mut self.codec);
        let codec = match slot {
            Some(codec) => codec,
            None => {
                let error = Error::InvalidInput(InvalidInputError::DiscordPcmEncoderUninitialized);
                assert(old(self).codec_for(format, Err(error)));
                return Err(error);
            },
        };
        assert(old(self).codec_for(format, Ok(codec)));
        let (next, made) = self.blocks.encode_chunk(codec, chunk, sink);
        self.codec = Some(next);
        made
    }

    /// What comes of the end: nothing where no codec was made.
    pub open spec fn finished(
        self,
        after: Self,
        old_packets: Seq<Seq<u8>>,
        new_packets: Seq<Seq<u8>>,
        made: Result<usize, Error>,
    ) -> bool {
        &&& after.source == self.source
        &&& match self.codec {
            None => {
                &&& made == Ok::<usize, Error>(0)
                &&& after.codec is None
                &&& after.blocks == self.blocks
                &&& new_packets == old_packets
            },
            Some(codec) => {
                &&& after.codec matches Some(next)
                &&& self.blocks.source_finished(
                    after.blocks,
                    self.source.source_format->0,
                    codec,
                    next,
                    old_packets,
                    new_packets,
                    made,
                )
            },
        }
    }

    /// Makes packets of what is left, and says how many.
    pub fn finish_to<S: PacketSink>(&mut self, sink: &mut S) -> (made: Result<usize, Error>)
        requires
            old(self).well_formed(),
        ensures
            final(self).well_formed(),
            old(self).finished(*final(self), old(sink).packets(), final(sink).packets(), made),
    {
        let format = match self.source.source_format {
            Some(format) => format,
            None => {
                return Ok(0);
            },
        };
        let mut slot: Option<C> = None;
        std::mem::swap(&mut slot, &mut self.codec);
        let codec = match slot {
            Some(codec) => codec,
            None => {
                return Ok(0);
            },
        };
        let (next, made) = self.blocks.finish_source(codec, format, sink);
        self.codec = Some(next);
        made
    }

    pub fn push_chunk(&mut self, chunk: &PcmChunk) -> (packets: Result<Vec<Packet>, Error>)
        requires
            old(self).well_formed(),
        ensures
            final(self).well_formed(),
            exists|made: Result<usize, Error>, rows: Seq<Seq<u8>>|
                {
                    &&& #[trigger] old(self).pushed(*final(self), *chunk, seq![], rows, made)
                    &&& match made {
                        Ok(_) => packets matches Ok(packets) && packets.packets() == rows,
                        Err(error) => packets == Err::<Vec<Packet>, Error>(error),
                    }
                },
    {
        let mut packets: Vec<Packet> = Vec::new();
        assert(packets.packets() =~= seq![]);
        match self.push_chunk_to(chunk, &mut packets) {
            Ok(_) => Ok(packets),
            Err(error) => Err(error),
        }
    }

    pub fn push_chunk_batch(&mut self, chunk: &PcmChunk) -> (packets: Result<PacketBatch, Error>)
        requires
            old(self).well_formed(),
        ensures
            final(self).well_formed(),
            exists|made: Result<usize, Error>, rows: Seq<Seq<u8>>|
                {
                    &&& #[trigger] old(self).pushed(*final(self), *chunk, seq![], rows, made)
                    &&& match made {
                        Ok(_) => packets matches Ok(packets) && packets@ == rows,
                        Err(error) => packets == Err::<PacketBatch, Error>(error),
                    }
                },
    {
        let mut packets = PacketBatch::new();
        assert(packets@ =~= seq![]);
        match self.push_chunk_to(chunk, &mut packets) {
            Ok(_) => Ok(packets),
            Err(error) => Err(error),
        }
    }

    pub fn finish(&mut self) -> (packets: Result<Vec<Packet>, Error>)
        requires
            old(self).well_formed(),
        ensures
            final(self).well_formed(),
            exists|made: Result<usize, Error>, rows: Seq<Seq<u8>>|
                {
                    &&& #[trigger] old(self).finished(*final(self), seq![], rows, made)
                    &&& match made {
                        Ok(_) => packets matches Ok(packets) && packets.packets() == rows,
                        Err(error) => packets == Err::<Vec<Packet>, Error>(error),
                    }
                },
    {
        let mut packets: Vec<Packet> = Vec::new();
        assert(packets.packets() =~= seq![]);
        match self.finish_to(&mut packets) {
            Ok(_) => Ok(packets),
            Err(error) => Err(error),
        }
    }

    pub fn finish_batch(&mut self) -> (packets: Result<PacketBatch, Error>)
        requires
            old(self).well_formed(),
        ensures
            final(self).well_formed(),
            exists|made: Result<usize, Error>, rows: Seq<Seq<u8>>|
                {
                    &&& #[trigger] old(self).finished(*final(self), seq![], rows, made)
                    &&& match made {
                        Ok(_) => packets matches Ok(packets) && packets@ == rows,
                        Err(error) => packets == Err::<PacketBatch, Error>(error),
                    }
                },
    {
        let mut packets = PacketBatch::new();
        assert(packets@ =~= seq![]);
        match self.finish_to(&mut packets) {
            Ok(_) => Ok(packets),
            Err(error) => Err(error),
        }
    }

    pub fn source_sample_rate_hz(&self) -> (rate: u32)
        ensures
            rate == (match self.source.source_format {
                Some(format) => format.sample_rate_hz@,
                None => SAMPLE_RATE_HZ,
            }),
    {
        self.source.source_sample_rate_hz()
    }

    pub fn source_format(&self) -> (format: Option<PcmFormat>)
        ensures
            format == self.source.source_format,
    {
        self.source.source_format()
    }

    pub fn source_pcm_bytes(&self) -> (bytes: usize)
        ensures
            bytes == self.source.source_pcm_bytes,
    {
        self.source.source_pcm_bytes()
    }

    pub fn source_channel_count(&self) -> (count: usize)
        ensures
            count == (match self.source.source_format {
                Some(format) => format.channels@,
                None => 1,
            }),
    {
        self.source.source_channel_count()
    }

    /// Whether there is a codec, and it changes the rate.
    pub fn resampling_required(&self) -> (required: bool)
        requires
            self.well_formed(),
        ensures
            required == (self.codec is Some && self.source.source_format->0.sample_rate_hz@
                != SAMPLE_RATE_HZ),
    {
        self.source.resampling_required()
    }
}

} // verus!
