//! Audio that is played: where it came from, and the packets that it became.

use super::batch::PacketSink;
use super::config::{SAMPLES_PER_CHANNEL, SAMPLE_RATE_HZ};
use super::dynamic::{as_stereo, at_rate, rest_at_rate, samples_read, ChunkCodec, DynamicPcmEncoder};
use super::encoder::BlockEncoder;
use super::packet::Packet;
use crate::bytes::to_vec;
use crate::errors::{Error, InvalidInputError, OpusError};
use crate::nonzero::NonZeroU32;
use crate::pcm::{PcmChunk, PcmFormat};
use vstd::prelude::*;

verus! {

/// Where audio came from.
#[derive(Clone, Copy, Debug, PartialEq, Eq, Structural)]
pub struct PlaybackAudioSource {
    pub sample_rate_hz: NonZeroU32,
    pub channel_count: NonZeroU32,
    pub pcm_bytes: usize,
}

/// The format of a source whose chunks all have the same.
pub struct DynamicPcmSource {
    pub source_format: Option<PcmFormat>,
    pub source_pcm_bytes: usize,
    /// Whether there is an encoder for the format.
    pub encoder_ready: bool,
}

/// Why a chunk of another format is refused.
pub open spec fn format_refusal(existing: PcmFormat, format: PcmFormat) -> Option<Error> {
    if existing == format {
        None
    } else if existing.sample_rate_hz != format.sample_rate_hz {
        Some(
            Error::InvalidInput(
                InvalidInputError::DiscordPcmMixedSampleRates {
                    existing: existing.sample_rate_hz@,
                    actual: format.sample_rate_hz@,
                },
            ),
        )
    } else if existing.channels != format.channels {
        Some(
            Error::InvalidInput(
                InvalidInputError::DiscordPcmMixedChannelCounts {
                    existing: existing.channels@,
                    actual: format.channels@,
                },
            ),
        )
    } else {
        Some(Error::InvalidInput(InvalidInputError::DiscordPcmMixedEncoding))
    }
}

/// Why there is no encoder for so many channels, if there is none.
pub open spec fn channels_refusal(channels: usize) -> Option<Error> {
    if channels == 1 || channels == 2 {
        None
    } else {
        Some(Error::Opus(OpusError::UnsupportedChannelCount { channels }))
    }
}

/// The sum, as far as a number can say.
pub open spec fn capped_sum(a: int, b: int) -> usize {
    if a + b > usize::MAX {
        usize::MAX
    } else {
        (a + b) as usize
    }
}

impl DynamicPcmSource {
    pub fn new() -> (source: Self)
        ensures
            source == (DynamicPcmSource {
                source_format: None,
                source_pcm_bytes: 0,
                encoder_ready: false,
            }),
    {
        DynamicPcmSource { source_format: None, source_pcm_bytes: 0, encoder_ready: false }
    }

    /// Takes the format of a chunk: the first one is that of the source, and all others
    /// have to be the same.
    pub fn accept_format(&mut self, format: PcmFormat) -> (result: Result<(), Error>)
        ensures
            match old(self).source_format {
                None => {
                    &&& final(self).source_format == Some(format)
                    &&& final(self).source_pcm_bytes == old(self).source_pcm_bytes
                    &&& match channels_refusal(format.channels@) {
                        Some(error) => result == Err::<(), Error>(error) && final(self).encoder_ready == old(self).encoder_ready,
                        None => result == Ok::<(), Error>(()) && final(self).encoder_ready,
                    }
                },
                Some(existing) => {
                    &&& *final(self) == *old(self)
                    &&& result == (match format_refusal(existing, format) {
                        Some(error) => Err::<(), Error>(error),
                        None => Ok::<(), Error>(()),
                    })
                },
            },
    {
        let existing = match self.source_format {
            Some(existing) => existing,
            None => {
                self.source_format = Some(format);
                let channels = format.channels.get();
                if channels != 1 && channels != 2 {
                    return Err(Error::Opus(OpusError::UnsupportedChannelCount { channels }));
                }
                self.encoder_ready = true;
                return Ok(());
            },
        };
        if existing == format {
            return Ok(());
        }
        if existing.sample_rate_hz != format.sample_rate_hz {
            return Err(
                Error::InvalidInput(
                    InvalidInputError::DiscordPcmMixedSampleRates {
                        existing: existing.sample_rate_hz.get(),
                        actual: format.sample_rate_hz.get(),
                    },
                ),
            );
        }
        if existing.channels != format.channels {
            return Err(
                Error::InvalidInput(
                    InvalidInputError::DiscordPcmMixedChannelCounts {
                        existing: existing.channels.get(),
                        actual: format.channels.get(),
                    },
                ),
            );
        }
        Err(Error::InvalidInput(InvalidInputError::DiscordPcmMixedEncoding))
    }

    /// Counts a chunk in. Where there is no encoder, because there is none for the format
    /// that came first, the chunk is counted and refused.
    pub fn accept_chunk(&mut self, chunk: &PcmChunk) -> (result: Result<(), Error>)
        ensures
            ({
                let format = chunk.of_format();
                let refusal = match old(self).source_format {
                    None => channels_refusal(format.channels@),
                    Some(existing) => format_refusal(existing, format),
                };
                let ready = old(self).source_format is None || old(self).encoder_ready;
                &&& final(self).source_format == (match old(self).source_format {
                    None => Some(format),
                    Some(existing) => Some(existing),
                })
                &&& match refusal {
                    Some(error) => {
                        &&& result == Err::<(), Error>(error)
                        &&& final(self).source_pcm_bytes == old(self).source_pcm_bytes
                        &&& final(self).encoder_ready == old(self).encoder_ready
                    },
                    None => {
                        &&& final(self).source_pcm_bytes == capped_sum(
                            old(self).source_pcm_bytes as int,
                            chunk.bytes().len() as int,
                        )
                        &&& final(self).encoder_ready == ready
                        &&& result == (if ready {
                            Ok::<(), Error>(())
                        } else {
                            Err::<(), Error>(
                                Error::InvalidInput(
                                    InvalidInputError::DiscordPcmEncoderUninitialized,
                                ),
                            )
                        })
                    },
                }
            }),
    {
        if let Err(error) = self.accept_format(chunk.format()) {
            return Err(error);
        }
        self.source_pcm_bytes = self.source_pcm_bytes.saturating_add(chunk.byte_len());
        if !self.encoder_ready {
            return Err(
                Error::InvalidInput(InvalidInputError::DiscordPcmEncoderUninitialized),
            );
        }
        Ok(())
    }

    /// The rate of the source; that of Discord where there is none yet.
    pub fn source_sample_rate_hz(&self) -> (rate: u32)
        ensures
            rate == (match self.source_format {
                Some(format) => format.sample_rate_hz@,
                None => SAMPLE_RATE_HZ,
            }),
            rate != 0,
    {
        match self.source_format {
            Some(format) => format.sample_rate_hz.get(),
            None => SAMPLE_RATE_HZ,
        }
    }

    pub fn source_format(&self) -> (format: Option<PcmFormat>)
        ensures
            format == self.source_format,
    {
        self.source_format
    }

    pub fn source_pcm_bytes(&self) -> (bytes: usize)
        ensures
            bytes == self.source_pcm_bytes,
    {
        self.source_pcm_bytes
    }

    /// How many channels the source has; one where there is none yet.
    pub fn source_channel_count(&self) -> (count: usize)
        ensures
            count == (match self.source_format {
                Some(format) => format.channels@,
                None => 1,
            }),
            count != 0,
    {
        match self.source_format {
            Some(format) => format.channels.get(),
            None => 1,
        }
    }

    /// Whether the source has another rate than Discord.
    pub fn resampling_required(&self) -> (required: bool)
        ensures
            required == (self.encoder_ready && match self.source_format {
                Some(format) => format.sample_rate_hz@ != SAMPLE_RATE_HZ,
                None => false,
            }),
    {
        match self.source_format {
            Some(format) => self.encoder_ready && format.sample_rate_hz.get() != SAMPLE_RATE_HZ,
            None => false,
        }
    }
}

/// Why chunks cannot be played together, if they cannot, from one on: their formats differ,
/// or there is no encoder for the first one.
pub open spec fn chunks_refusal(chunks: Seq<PcmChunk>, from: int) -> Option<Error>
    decreases chunks.len() - from,
{
    if from < 0 || from >= chunks.len() {
        None
    } else {
        let refusal = if from == 0 {
            channels_refusal(chunks[0].of_format().channels@)
        } else {
            format_refusal(chunks[0].of_format(), chunks[from].of_format())
        };
        match refusal {
            Some(error) => Some(error),
            None => chunks_refusal(chunks, from + 1),
        }
    }
}

/// How many bytes the first chunks have, as far as a number can say.
pub open spec fn bytes_of_first(chunks: Seq<PcmChunk>, count: int) -> usize
    decreases count,
{
    if count <= 0 {
        0
    } else {
        capped_sum(
            bytes_of_first(chunks, count - 1) as int,
            chunks[count - 1].bytes().len() as int,
        )
    }
}

/// Packets, and where they came from.
pub struct PlaybackAudio {
    pub packets: Vec<Packet>,
    pub source: PlaybackAudioSource,
}

/// How many packets audio of so many frames at 48 kHz becomes: each holds 960 frames, and
/// the last one is filled up.
pub open spec fn packets_of(frames: int) -> int {
    (frames + SAMPLES_PER_CHANNEL - 1) / SAMPLES_PER_CHANNEL as int
}

/// How many frames the first chunks have.
pub open spec fn frames_of_first(chunks: Seq<PcmChunk>, count: int) -> int
    decreases count,
{
    if count <= 0 {
        0
    } else {
        let last = chunks[count - 1];
        frames_of_first(chunks, count - 1) + last.samples() / last.of_format().channels@ as int
    }
}

/// Whether every chunk has the rate of Discord.
pub open spec fn at_discord_rate(chunks: Seq<PcmChunk>) -> bool {
    forall|i: int|
        0 <= i < chunks.len() ==> (#[trigger] chunks[i]).of_format().sample_rate_hz@
            == SAMPLE_RATE_HZ
}

/// Whether an encoder took a chunk.
pub open spec fn chunk_taken<T: Copy, C: ChunkCodec<T>>(
    before: DynamicPcmEncoder<T, C>,
    after: DynamicPcmEncoder<T, C>,
    chunk: PcmChunk,
    old_packets: Seq<Seq<u8>>,
    new_packets: Seq<Seq<u8>>,
) -> bool {
    exists|count: usize| #[trigger]
        before.pushed(after, chunk, old_packets, new_packets, Ok(count))
}

/// Whether an encoder that is new took the first chunks, one after the other: what it was
/// before each and in the end, and the packets that there were.
pub open spec fn chunks_taken<T: Copy, C: ChunkCodec<T>>(
    encoders: Seq<DynamicPcmEncoder<T, C>>,
    rows: Seq<Seq<Seq<u8>>>,
    chunks: Seq<PcmChunk>,
) -> bool {
    &&& encoders.len() > 0
    &&& rows.len() == encoders.len()
    &&& encoders.len() <= chunks.len() + 1
    &&& encoders[0].source == (DynamicPcmSource {
        source_format: None,
        source_pcm_bytes: 0,
        encoder_ready: false,
    })
    &&& encoders[0].codec is None
    &&& encoders[0].blocks.waiting() == Seq::<T>::empty()
    &&& rows[0] == Seq::<Seq<u8>>::empty()
    &&& forall|i: int, j: int|
        #![trigger encoders[i], encoders[j]]
        0 <= i && j == i + 1 && j < encoders.len() ==> chunk_taken(
            encoders[i],
            encoders[j],
            chunks[i],
            rows[i],
            rows[j],
        )
}

/// Whether that is what comes of chunks: the packets of all of them, or the first error.
pub open spec fn chunks_played<T: Copy, C: ChunkCodec<T>>(
    encoders: Seq<DynamicPcmEncoder<T, C>>,
    rows: Seq<Seq<Seq<u8>>>,
    chunks: Seq<PcmChunk>,
    after: DynamicPcmEncoder<T, C>,
    last_rows: Seq<Seq<u8>>,
    audio: Result<PlaybackAudio, Error>,
) -> bool {
    &&& chunks_taken(encoders, rows, chunks)
    &&& match audio {
        Ok(audio) => {
            &&& encoders.len() == chunks.len() + 1
            &&& exists|count: usize| #[trigger]
                encoders.last().finished(after, rows.last(), last_rows, Ok(count))
            &&& audio.packets.packets() == last_rows
        },
        Err(error) => if encoders.len() <= chunks.len() {
            encoders.last().pushed(
                after,
                chunks[encoders.len() - 1],
                rows.last(),
                last_rows,
                Err(error),
            )
        } else {
            encoders.last().finished(after, rows.last(), last_rows, Err(error))
        },
    }
}

proof fn lemma_chunk_counts<T: Copy, C: ChunkCodec<T>>(
    before: BlockEncoder<T>,
    after: BlockEncoder<T>,
    chunk: PcmChunk,
    codec: C,
    next_codec: C,
    old_packets: Seq<Seq<u8>>,
    new_packets: Seq<Seq<u8>>,
    count: usize,
)
    requires
        before.chunk_encoded(after, chunk, codec, next_codec, old_packets, new_packets, Ok(count)),
        channels_refusal(chunk.of_format().channels@) is None,
    ensures
        new_packets.len() == old_packets.len() + count,
        after.waiting().len() < 1_920,
        chunk.of_format().sample_rate_hz@ == SAMPLE_RATE_HZ ==> after.waiting().len() + count
            * 1_920 == before.waiting().len() + 2 * (chunk.samples()
            / chunk.of_format().channels@ as int),
{
    let channels = chunk.of_format().channels@;
    let rate = chunk.of_format().sample_rate_hz@;
    let (source, between, samples) = choose|
        source: Seq<T>,
        between: C,
        samples: Result<Vec<T>, Error>,
    |
        {
            &&& samples_read(codec, chunk, source)
            &&& #[trigger] at_rate(codec, between, rate, source, samples)
            &&& before.brought_encoded(
                after,
                channels,
                samples,
                between,
                next_codec,
                old_packets,
                new_packets,
                Ok(count),
            )
        };
    let stereo = as_stereo(channels, samples->Ok_0@);
    assert(before.encoded(
        after,
        stereo,
        between,
        next_codec,
        old_packets,
        new_packets,
        Ok(count),
    ));
    if rate == SAMPLE_RATE_HZ {
        assert(samples->Ok_0@ == source);
        assert(stereo.len() == 2 * (chunk.samples() / channels as int));
    }
}

proof fn lemma_finish_counts<T: Copy, C: ChunkCodec<T>>(
    before: BlockEncoder<T>,
    after: BlockEncoder<T>,
    format: PcmFormat,
    codec: C,
    next_codec: C,
    old_packets: Seq<Seq<u8>>,
    new_packets: Seq<Seq<u8>>,
    made: usize,
)
    requires
        before.source_finished(
            after,
            format,
            codec,
            next_codec,
            old_packets,
            new_packets,
            Ok(made),
        ),
        before.waiting().len() < 1_920,
        format.sample_rate_hz@ == SAMPLE_RATE_HZ,
    ensures
        new_packets.len() == old_packets.len() + (if before.waiting().len() > 0 {
            1int
        } else {
            0int
        }),
{
    let channels = format.channels@;
    let (samples, brought, blocks, cut, rows, first) = choose|
        samples: Result<Vec<T>, Error>,
        brought: C,
        blocks: BlockEncoder<T>,
        cut: C,
        rows: Seq<Seq<u8>>,
        first: Result<usize, Error>,
    |
        {
            &&& #[trigger] rest_at_rate(codec, brought, format.sample_rate_hz@, samples)
            &&& #[trigger] before.brought_encoded(
                blocks,
                channels,
                samples,
                brought,
                cut,
                old_packets,
                rows,
                first,
            )
            &&& match first {
                Err(error) => false,
                Ok(count) => exists|silence: T, last: Result<usize, Error>|
                    {
                        &&& call_ensures(C::silence, (&cut,), silence)
                        &&& #[trigger] blocks.finished(
                            after,
                            silence,
                            cut,
                            next_codec,
                            rows,
                            new_packets,
                            last,
                        )
                        &&& Ok::<usize, Error>(made) == (match last {
                            Ok(more) => Ok::<usize, Error>((count + more) as usize),
                            Err(error) => Err::<usize, Error>(error),
                        })
                    },
            }
        };
    let stereo = as_stereo(channels, samples->Ok_0@);
    assert(stereo =~= Seq::<T>::empty());
    assert(before.waiting() + stereo =~= before.waiting());
    assert(before.encoded(blocks, stereo, brought, cut, old_packets, rows, first));
    assert(blocks.waiting() =~= before.waiting());
}

impl PlaybackAudio {
    /// Whether that is where audio of some chunks came from: the first one gives the format,
    /// and without one it is one channel at the rate of Discord.
    pub open spec fn is_from(self, chunks: Seq<PcmChunk>) -> bool {
        &&& self.source.sample_rate_hz@ == (if chunks.len() > 0 {
            chunks[0].of_format().sample_rate_hz@
        } else {
            SAMPLE_RATE_HZ
        })
        &&& self.source.channel_count@ == (if chunks.len() > 0 {
            chunks[0].of_format().channels@ as int
        } else {
            1
        })
        &&& self.source.pcm_bytes == bytes_of_first(chunks, chunks.len() as int)
    }

    /// Makes packets of chunks. Chunks that cannot be played together are refused, and the
    /// first error of the codec ends it. Audio at 48 kHz becomes a packet for every 960
    /// frames that are begun, whatever chunks it comes in: what does not fill a block is
    /// carried from chunk to chunk, and only the last block is filled up.
    pub fn from_chunks<T: Copy, C: ChunkCodec<T>>(chunks: &Vec<PcmChunk>) -> (audio: Result<
        Self,
        Error,
    >)
        ensures
            exists|
                encoders: Seq<DynamicPcmEncoder<T, C>>,
                rows: Seq<Seq<Seq<u8>>>,
                after: DynamicPcmEncoder<T, C>,
                last_rows: Seq<Seq<u8>>,
            | #[trigger]
                chunks_played(encoders, rows, chunks@, after, last_rows, audio),
            chunks_refusal(chunks@, 0) is Some ==> audio is Err,
            chunks@.len() == 0 ==> audio is Ok,
            audio matches Ok(audio) ==> audio.is_from(chunks@),
            audio matches Ok(audio) ==> (at_discord_rate(chunks@) ==> audio.packets@.len()
                == packets_of(frames_of_first(chunks@, chunks@.len() as int))),
    {
        let mut encoder: DynamicPcmEncoder<T, C> = DynamicPcmEncoder::new();
        let mut packets: Vec<Packet> = Vec::new();
        assert(packets.packets() =~= Seq::<Seq<u8>>::empty());
        let ghost mut encoders = seq![encoder];
        let ghost mut rows = seq![packets.packets()];
        let len = chunks.len();
        let mut i: usize = 0;
        while i < len
            invariant
                len == chunks@.len(),
                i <= len,
                encoder.well_formed(),
                encoders.len() == i + 1,
                encoders.last() == encoder,
                rows.last() == packets.packets(),
                chunks_taken(encoders, rows, chunks@),
                encoder.source.source_format == (if i > 0 {
                    Some(chunks@[0].of_format())
                } else {
                    None
                }),
                i == 0 ==> encoder.codec is None,
                i > 0 ==> encoder.codec is Some,
                i > 0 ==> channels_refusal(chunks@[0].of_format().channels@) is None,
                chunks_refusal(chunks@, 0) == chunks_refusal(chunks@, i as int),
                encoder.blocks.waiting().len() < 1_920,
                at_discord_rate(chunks@) ==> packets@.len() * 1_920
                    + encoder.blocks.waiting().len() == 2 * frames_of_first(chunks@, i as int),
            decreases len - i,
        {
            let ghost before = encoder;
            let ghost old_rows = packets.packets();
            let made = encoder.push_chunk_to(&chunks[i], &mut packets);
            let ghost chunk = chunks@[i as int];
            assert(before.pushed(encoder, chunk, old_rows, packets.packets(), made));
            match made {
                Ok(count) => {
                    proof {
                        let new_rows = packets.packets();
                        assert(chunk.of_format() == chunks@[0].of_format());
                        assert(chunk_taken(before, encoder, chunk, old_rows, new_rows));
                        let codec = choose|codec: Result<C, Error>|
                            {
                                &&& #[trigger] before.codec_for(chunk.of_format(), codec)
                                &&& codec matches Ok(codec) && before.blocks.chunk_encoded(
                                    encoder.blocks,
                                    chunk,
                                    codec,
                                    encoder.codec->0,
                                    old_rows,
                                    new_rows,
                                    Ok(count),
                                )
                            };
                        lemma_chunk_counts(
                            before.blocks,
                            encoder.blocks,
                            chunk,
                            codec->Ok_0,
                            encoder.codec->0,
                            old_rows,
                            new_rows,
                            count,
                        );
                        let longer = encoders.push(encoder);
                        let more = rows.push(new_rows);
                        assert forall|a: int, b: int|
                            #![trigger longer[a], longer[b]]
                            0 <= a && b == a + 1 && b < longer.len() implies chunk_taken(
                            longer[a],
                            longer[b],
                            chunks@[a],
                            more[a],
                            more[b],
                        ) by {
                            if b < encoders.len() {
                                assert(longer[a] == encoders[a] && longer[b] == encoders[b]);
                            }
                        }
                        encoders = longer;
                        rows = more;
                        if at_discord_rate(chunks@) {
                            assert(chunk.of_format().sample_rate_hz@ == SAMPLE_RATE_HZ);
                        }
                    }
                },
                Err(error) => {
                    let audio: Result<Self, Error> = Err(error);
                    assert(chunks_played(
                        encoders,
                        rows,
                        chunks@,
                        encoder,
                        packets.packets(),
                        audio,
                    ));
                    return audio;
                },
            }
            i = i + 1;
        }
        let ghost before = encoder;
        let ghost old_rows = packets.packets();
        let made = encoder.finish_to(&mut packets);
        assert(before.finished(encoder, old_rows, packets.packets(), made));
        let ghost last_rows = packets.packets();
        let audio = match made {
            Ok(count) => {
                proof {
                    if before.codec is Some && at_discord_rate(chunks@) {
                        assert(chunks@[0].of_format().sample_rate_hz@ == SAMPLE_RATE_HZ);
                        lemma_finish_counts(
                            before.blocks,
                            encoder.blocks,
                            before.source.source_format->0,
                            before.codec->0,
                            encoder.codec->0,
                            old_rows,
                            last_rows,
                            count,
                        );
                    }
                }
                Self::with_packets(chunks, packets)
            },
            Err(error) => Err(error),
        };
        assert(chunks_played(encoders, rows, chunks@, encoder, last_rows, audio));
        audio
    }

    /// The audio of some chunks, which became these packets. Chunks that cannot be played
    /// together are refused.
    pub fn with_packets(chunks: &Vec<PcmChunk>, packets: Vec<Packet>) -> (audio: Result<
        Self,
        Error,
    >)
        ensures
            match chunks_refusal(chunks@, 0) {
                Some(error) => audio == Err::<Self, Error>(error),
                None => {
                    &&& audio matches Ok(audio)
                    &&& audio.packets == packets
                    &&& audio.is_from(chunks@)
                },
            },
    {
        let mut source = DynamicPcmSource::new();
        let len = chunks.len();
        let mut i: usize = 0;
        while i < len
            invariant
                len == chunks@.len(),
                i <= len,
                source.encoder_ready == (i > 0),
                source.source_format == (if i > 0 {
                    Some(chunks@[0].of_format())
                } else {
                    None
                }),
                i > 0 ==> channels_refusal(chunks@[0].of_format().channels@) is None,
                source.source_pcm_bytes == bytes_of_first(chunks@, i as int),
                chunks_refusal(chunks@, 0) == chunks_refusal(chunks@, i as int),
            decreases len - i,
        {
            if let Err(error) = source.accept_chunk(&chunks[i]) {
                return Err(error);
            }
            i = i + 1;
        }
        let channels: usize = source.source_channel_count();
        let sample_rate_hz = match NonZeroU32::new(source.source_sample_rate_hz()) {
            Some(rate) => rate,
            None => NonZeroU32::one(),
        };
        let channel_count = match NonZeroU32::new(channels as u32) {
            Some(count) => count,
            None => NonZeroU32::one(),
        };
        Ok(
            PlaybackAudio {
                packets,
                source: PlaybackAudioSource {
                    sample_rate_hz,
                    channel_count,
                    pcm_bytes: source.source_pcm_bytes(),
                },
            },
        )
    }

    /// Audio that was encoded elsewhere.
    pub fn from_packets(packets: Vec<Packet>, source: PlaybackAudioSource) -> (audio: Self)
        ensures
            audio == (PlaybackAudio { packets, source }),
    {
        PlaybackAudio { packets, source }
    }

    pub fn packets(&self) -> (packets: &[Packet])
        ensures
            packets@ == self.packets@,
    {
        self.packets.as_slice()
    }

    /// Second packets of the same content.
    pub fn clone_packets(&self) -> (packets: Vec<Packet>)
        ensures
            packets@.len() == self.packets@.len(),
            forall|i: int|
                0 <= i < packets@.len() ==> (#[trigger] packets@[i])@ == self.packets@[i]@,
    {
        let len = self.packets.len();
        let mut packets: Vec<Packet> = Vec::new();
        let mut i: usize = 0;
        while i < len
            invariant
                len == self.packets@.len(),
                i <= len,
                packets@.len() == i,
                forall|k: int| 0 <= k < i ==> (#[trigger] packets@[k])@ == self.packets@[k]@,
            decreases len - i,
        {
            let bytes = to_vec(self.packets[i].bytes());
            packets.push(Packet::from_encoder_bytes(bytes));
            i = i + 1;
        }
        packets
    }

    pub fn source(&self) -> (source: PlaybackAudioSource)
        ensures
            source == self.source,
    {
        self.source
    }

    pub fn source_sample_rate_hz(&self) -> (rate: u32)
        ensures
            rate == self.source.sample_rate_hz@,
    {
        self.source.sample_rate_hz.get()
    }

    pub fn source_channel_count(&self) -> (count: u32)
        ensures
            count == self.source.channel_count@,
    {
        self.source.channel_count.get()
    }

    pub fn source_pcm_bytes(&self) -> (bytes: usize)
        ensures
            bytes == self.source.pcm_bytes,
    {
        self.source.pcm_bytes
    }

    pub fn packet_count(&self) -> (count: usize)
        ensures
            count == self.packets@.len(),
    {
        self.packets.len()
    }
}

/// Audio of so many frames becomes as many packets of 20 ms as it fills or begins.
pub proof fn law_packets_cover_the_audio(frames: int)
    requires
        0 < frames,
    ensures
        (packets_of(frames) - 1) * 960 < frames <= packets_of(frames) * 960,
{
}

/// Chunks can be played together exactly where there is an encoder for the first one, which
/// has one channel or two, and all have its format.
pub proof fn law_chunks_of_one_format_are_played(chunks: Seq<PcmChunk>)
    requires
        chunks.len() > 0,
    ensures
        chunks_refusal(chunks, 0) is None <==> 1 <= chunks[0].of_format().channels@ <= 2 && forall|
            i: int,
        |
            0 <= i < chunks.len() ==> (#[trigger] chunks[i]).of_format() == chunks[0].of_format(),
{
    lemma_chunks_of_one_format(chunks, 1);
    if chunks_refusal(chunks, 0) is None {
        assert(chunks_refusal(chunks, 1) is None);
        assert forall|i: int| 0 <= i < chunks.len() implies (#[trigger] chunks[i]).of_format()
            == chunks[0].of_format() by {
            if i > 0 {
                assert(chunks[i].of_format() == chunks[0].of_format());
            }
        }
    }
}

proof fn lemma_chunks_of_one_format(chunks: Seq<PcmChunk>, from: int)
    requires
        0 < from <= chunks.len(),
    ensures
        chunks_refusal(chunks, from) is None <==> forall|i: int|
            from <= i < chunks.len() ==> (#[trigger] chunks[i]).of_format()
                == chunks[0].of_format(),
    decreases chunks.len() - from,
{
    if from < chunks.len() {
        lemma_chunks_of_one_format(chunks, from + 1);
        if chunks_refusal(chunks, from) is None {
            assert forall|i: int| from <= i < chunks.len() implies (
            #[trigger] chunks[i]).of_format() == chunks[0].of_format() by {
                if i > from {
                }
            }
        } else {
            if format_refusal(chunks[0].of_format(), chunks[from].of_format()) is Some {
                assert(chunks[from].of_format() != chunks[0].of_format());
            }
        }
    }
}

/// The bytes and the frames of some chunks are those of all of them, each counted once.
pub proof fn law_every_chunk_is_counted(chunks: Seq<PcmChunk>, count: int)
    requires
        0 <= count <= chunks.len(),
        chunks.take(count).fold_left(0, |sum: int, chunk: PcmChunk| sum + chunk.bytes().len())
            <= usize::MAX,
    ensures
        bytes_of_first(chunks, count) == chunks.take(count).fold_left(
            0,
            |sum: int, chunk: PcmChunk| sum + chunk.bytes().len(),
        ),
        frames_of_first(chunks, count) == chunks.take(count).fold_left(
            0,
            |sum: int, chunk: PcmChunk|
                sum + chunk.samples() / chunk.of_format().channels@ as int,
        ),
    decreases count,
{
    if count > 0 {
        let first = chunks.take(count);
        assert(first.drop_last() =~= chunks.take(count - 1));
        assert(first.last() == chunks[count - 1]);
        law_every_chunk_is_counted(chunks, count - 1);
    }
}

} // verus!
