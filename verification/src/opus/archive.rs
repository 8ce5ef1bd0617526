//! Captured audio as an Ogg Opus archive.

use super::ogg::{
    ogg_read, ogg_stream, ogg_written, one_stream, packet_segments, page_mark, read_back, segments_of,
    OggWriter, PacketEnd, WrittenPacket,
};
use crate::bytes::{le32_bytes, push_le16, push_le32, to_vec};
use crate::errors::{Error, InvalidInputError, OpusError};
use crate::pcm::PcmChunk;
use vstd::prelude::*;
use vstd::slice::slice_subrange;
use vstd::string::*;

verus! {

/// The number of the stream in an archive.
pub const OGG_OPUS_ARCHIVE_SERIAL: u32 = 0xDEAD_BEEF;

/// How many bits a second an archive is encoded with.
pub const OGG_OPUS_ARCHIVE_BITRATE_BPS: i32 = 24_000;

/// How many samples a frame is long, as Ogg counts: at 48,000 a second, whatever the rate
/// of the audio is.
pub const OPUS_ARCHIVE_GRANULE_STEP: u64 = 960;

/// Audio that was captured, in one channel.
pub struct CapturedPcmAudio {
    pcm: PcmChunk,
}

impl CapturedPcmAudio {
    #[verifier::type_invariant]
    spec fn one_channel(self) -> bool {
        self.pcm.of_format().channels@ == 1
    }

    pub closed spec fn chunk(self) -> PcmChunk {
        self.pcm
    }

    pub fn new(pcm: PcmChunk) -> (audio: Result<Self, Error>)
        ensures
            if pcm.of_format().channels@ == 1 {
                audio matches Ok(audio) && audio.chunk() == pcm
            } else {
                audio == Err::<Self, Error>(
                    Error::Opus(
                        OpusError::UnsupportedChannelCount {
                            channels: pcm.of_format().channels@,
                        },
                    ),
                )
            },
    {
        let channels = pcm.channels().get();
        if channels != 1 {
            return Err(Error::Opus(OpusError::UnsupportedChannelCount { channels }));
        }
        Ok(CapturedPcmAudio { pcm })
    }

    pub fn pcm(&self) -> (pcm: &PcmChunk)
        ensures
            *pcm == self.chunk(),
    {
        &self.pcm
    }

    /// Starts an archive: the packets that come before the audio are written. The frames
    /// are encoded one after the other and handed over.
    pub fn encode_ogg_opus_archive(&self, vendor: &str) -> (encoder: Result<
        OggOpusArchiveEncoder,
        Error,
    >)
        requires
            packet_segments(16 + vendor.spec_bytes().len() as int) < u32::MAX,
        ensures
            started(self.chunk(), vendor.spec_bytes(), encoder),
    {
        OggOpusArchiveEncoder::new(self, vendor)
    }
}

/// Whether audio of this rate can be archived.
pub open spec fn archived_rate(rate: u32) -> bool {
    rate == 8_000 || rate == 12_000 || rate == 16_000 || rate == 24_000 || rate == 48_000
}

/// Why audio is not archived, if it is not.
pub open spec fn archive_fault(chunk: PcmChunk, vendor: Seq<u8>) -> Option<Error> {
    if chunk.bytes().len() == 0 {
        Some(Error::InvalidInput(InvalidInputError::PcmArchiveEmpty))
    } else if !archived_rate(chunk.of_format().sample_rate_hz@) {
        Some(
            Error::InvalidInput(
                InvalidInputError::OggOpusUnsupportedSampleRate {
                    sample_rate_hz: chunk.of_format().sample_rate_hz@,
                },
            ),
        )
    } else if vendor.len() == 0 {
        Some(Error::InvalidInput(InvalidInputError::OggOpusVendorEmpty))
    } else {
        None
    }
}

/// The letters that an archive starts with.
pub open spec fn head_mark() -> Seq<u8> {
    seq![0x4Fu8, 0x70u8, 0x75u8, 0x73u8, 0x48u8, 0x65u8, 0x61u8, 0x64u8]
}

/// The letters before the tags.
pub open spec fn tags_mark() -> Seq<u8> {
    seq![0x4Fu8, 0x70u8, 0x75u8, 0x73u8, 0x54u8, 0x61u8, 0x67u8, 0x73u8]
}

/// The first packet: version 1, one channel, nothing to skip, the rate of the audio, no
/// gain, and the channels in their order.
pub open spec fn opus_head_bytes(rate: u32) -> Seq<u8> {
    head_mark() + seq![1u8, 1u8, 0u8, 0u8] + le32_bytes(rate) + seq![0u8, 0u8, 0u8]
}

/// The second packet: who made it, and no comments. The length is counted in 32 bits.
pub open spec fn opus_tags_bytes(vendor: Seq<u8>) -> Seq<u8> {
    tags_mark() + le32_bytes((vendor.len() % 0x1_0000_0000) as u32) + vendor + seq![
        0u8,
        0u8,
        0u8,
        0u8,
    ]
}

/// The packets before the audio.
pub open spec fn heading(rate: u32, vendor: Seq<u8>) -> Seq<WrittenPacket> {
    seq![
        WrittenPacket {
            data: opus_head_bytes(rate),
            serial: OGG_OPUS_ARCHIVE_SERIAL,
            end: PacketEnd::Page,
            position: 0,
        },
        WrittenPacket {
            data: opus_tags_bytes(vendor),
            serial: OGG_OPUS_ARCHIVE_SERIAL,
            end: PacketEnd::Page,
            position: 0,
        },
    ]
}

/// How many samples of audio a frame holds: those of 20 ms.
pub open spec fn frame_samples_at(rate: u32) -> int {
    rate as int * 20 / 1_000
}

/// How many frames audio makes: the last may be filled up.
pub open spec fn frames_of(chunk: PcmChunk) -> int {
    let samples = frame_samples_at(chunk.of_format().sample_rate_hz@);
    (chunk.samples() + samples - 1) / samples
}

/// The bytes of the audio that make up a frame.
pub open spec fn frame_bytes(chunk: PcmChunk, index: int) -> Seq<u8> {
    let samples = frame_samples_at(chunk.of_format().sample_rate_hz@);
    let width = chunk.of_format().encoding.width() as int;
    let start = index * samples;
    let end = if start + samples < chunk.samples() {
        start + samples
    } else {
        chunk.samples()
    };
    chunk.bytes().subrange(start * width, end * width)
}

/// The packet of a frame: the stream ends with the last one.
pub open spec fn frame_packet(data: Seq<u8>, index: int, frames: int) -> WrittenPacket {
    WrittenPacket {
        data,
        serial: OGG_OPUS_ARCHIVE_SERIAL,
        end: if index + 1 == frames {
            PacketEnd::Stream
        } else {
            PacketEnd::Neither
        },
        position: ((index + 1) * OPUS_ARCHIVE_GRANULE_STEP) as u64,
    }
}

/// Whether packets are those of an archive so far: the two before the audio, and then one
/// for each frame.
pub open spec fn archive_so_far(
    packets: Seq<WrittenPacket>,
    rate: u32,
    index: int,
    frames: int,
) -> bool {
    &&& 0 <= index <= frames
    &&& packets.len() == index + 2
    &&& packets[0] == heading(rate, Seq::<u8>::empty())[0]
    &&& packets[1].data.len() >= 8
    &&& packets[1].data.subrange(0, 8) == tags_mark()
    &&& packets[1].serial == OGG_OPUS_ARCHIVE_SERIAL
    &&& packets[1].end == PacketEnd::Page
    &&& forall|i: int|
        2 <= i < packets.len() ==> #[trigger] packets[i] == frame_packet(
            packets[i].data,
            i - 2,
            frames,
        )
}

/// What comes of starting an archive.
pub open spec fn started(
    chunk: PcmChunk,
    vendor: Seq<u8>,
    encoder: Result<OggOpusArchiveEncoder, Error>,
) -> bool {
    match archive_fault(chunk, vendor) {
        Some(error) => encoder == Err::<OggOpusArchiveEncoder, Error>(error),
        None => {
            &&& encoder matches Ok(encoder)
            &&& encoder.audio().of_format() == chunk.of_format()
            &&& encoder.audio().bytes() == chunk.bytes()
            &&& encoder.done() == 0
            &&& encoder.packets() == heading(chunk.of_format().sample_rate_hz@, vendor)
        },
    }
}

/// An archive that is being written.
pub struct OggOpusArchiveEncoder {
    audio: PcmChunk,
    writer: OggWriter,
    frame_samples: usize,
    frame_count: usize,
    index: usize,
    segments: u64,
}

/// An archive.
#[derive(Debug)]
pub struct OggOpusAudioArchive {
    pub content: Vec<u8>,
    pub original_bytes: usize,
    pub sample_rate_hz: u32,
}

proof fn lemma_segments_grow(packets: Seq<WrittenPacket>, packet: WrittenPacket)
    ensures
        segments_of(packets.push(packet)) == segments_of(packets) + packet_segments(
            packet.data.len() as int,
        ),
{
    assert(packets.push(packet).drop_last() =~= packets);
}

proof fn lemma_segments_counted(packets: Seq<WrittenPacket>)
    ensures
        segments_of(packets) >= packets.len(),
    decreases packets.len(),
{
    if packets.len() > 0 {
        lemma_segments_counted(packets.drop_last());
    }
}

/// Dividing and rounding up, in the two ways.
proof fn lemma_rounded_up(samples: int, frame: int)
    requires
        samples >= 0,
        frame > 0,
    ensures
        (samples + frame - 1) / frame == if samples % frame == 0 {
            samples / frame
        } else {
            samples / frame + 1
        },
{
    let q = samples / frame;
    let r = samples % frame;
    vstd::arithmetic::div_mod::lemma_fundamental_div_mod(samples, frame);
    assert(0 <= r < frame) by (nonlinear_arith)
        requires
            r == samples % frame,
            frame > 0,
    ;
    if r == 0 {
        assert(samples + frame - 1 == frame * q + (frame - 1));
        vstd::arithmetic::div_mod::lemma_fundamental_div_mod_converse(
            samples + frame - 1,
            frame,
            q,
            frame - 1,
        );
    } else {
        assert(frame * (q + 1) == frame * q + frame) by (nonlinear_arith);
        assert(samples + frame - 1 == frame * (q + 1) + (r - 1));
        vstd::arithmetic::div_mod::lemma_fundamental_div_mod_converse(
            samples + frame - 1,
            frame,
            q + 1,
            r - 1,
        );
    }
}

/// Each frame that is counted starts within the audio.
proof fn lemma_frame_starts_within(samples: int, frame: int, index: int)
    requires
        samples >= 0,
        frame > 0,
        0 <= index < (samples + frame - 1) / frame,
    ensures
        0 <= index * frame < samples,
{
    let count = (samples + frame - 1) / frame;
    vstd::arithmetic::div_mod::lemma_fundamental_div_mod(samples + frame - 1, frame);
    assert((samples + frame - 1) % frame >= 0) by (nonlinear_arith)
        requires
            frame > 0,
    ;
    assert(index * frame + frame <= frame * count) by (nonlinear_arith)
        requires
            index + 1 <= count,
            frame > 0,
    ;
    assert(0 <= index * frame) by (nonlinear_arith)
        requires
            0 <= index,
            frame > 0,
    ;
}

/// Audio that is there makes at least one frame.
proof fn lemma_frames_to_write(samples: int, frame: int)
    requires
        samples > 0,
        frame > 0,
    ensures
        (samples + frame - 1) / frame > 0,
{
    assert((samples + frame - 1) / frame > 0) by (nonlinear_arith)
        requires
            samples > 0,
            frame > 0,
    ;
}

/// Order stays when all sides are scaled.
proof fn lemma_scaled(start: int, end: int, samples: int, width: int)
    by (nonlinear_arith)
    requires
        0 <= start <= end <= samples,
        0 < width,
    ensures
        0 <= start * width <= end * width <= samples * width,
{
}

impl OggOpusArchiveEncoder {
    #[verifier::type_invariant]
    spec fn in_order(self) -> bool {
        let rate = self.audio.of_format().sample_rate_hz@;
        &&& archived_rate(rate)
        &&& self.audio.of_format().channels@ == 1
        &&& self.audio.bytes().len() > 0
        &&& self.frame_samples == frame_samples_at(rate)
        &&& self.frame_count == frames_of(self.audio)
        &&& archive_so_far(
            ogg_written(self.writer),
            rate,
            self.index as int,
            self.frame_count as int,
        )
        &&& self.segments == segments_of(ogg_written(self.writer))
        &&& self.segments <= u32::MAX
    }

    pub closed spec fn audio(self) -> PcmChunk {
        self.audio
    }

    /// How many frames were handed over.
    pub closed spec fn done(self) -> nat {
        self.index as nat
    }

    /// The packets that were written.
    pub closed spec fn packets(self) -> Seq<WrittenPacket> {
        ogg_written(self.writer)
    }

    fn new(audio: &CapturedPcmAudio, vendor: &str) -> (encoder: Result<Self, Error>)
        requires
            packet_segments(16 + vendor.spec_bytes().len() as int) < u32::MAX,
        ensures
            started(audio.chunk(), vendor.spec_bytes(), encoder),
    {
        proof {
            use_type_invariant(audio);
        }
        let chunk = audio.pcm.copy();
        if chunk.is_empty() {
            return Err(Error::InvalidInput(InvalidInputError::PcmArchiveEmpty));
        }
        let rate = chunk.sample_rate_hz().get();
        if rate != 8_000 && rate != 12_000 && rate != 16_000 && rate != 24_000 && rate
            != 48_000 {
            return Err(
                Error::InvalidInput(
                    InvalidInputError::OggOpusUnsupportedSampleRate { sample_rate_hz: rate },
                ),
            );
        }
        let vendor_bytes = vendor.as_bytes();
        if vendor_bytes.len() == 0 {
            return Err(Error::InvalidInput(InvalidInputError::OggOpusVendorEmpty));
        }
        let mut writer = OggWriter::new();
        let head = Self::opus_head(rate);
        let ghost head_data = head@;
        assert(segments_of(ogg_written(writer)) == 0);
        if let Err(words) = writer.write_packet(head, OGG_OPUS_ARCHIVE_SERIAL, PacketEnd::Page, 0) {
            return Err(Error::Io(words));
        }
        let ghost first = WrittenPacket {
            data: head_data,
            serial: OGG_OPUS_ARCHIVE_SERIAL,
            end: PacketEnd::Page,
            position: 0,
        };
        proof {
            lemma_segments_grow(Seq::<WrittenPacket>::empty(), first);
        }
        let tags = Self::opus_tags(vendor_bytes);
        let ghost tags_data = tags@;
        let tags_segments: u64 = (tags.len() / 255) as u64 + 1;
        if let Err(words) = writer.write_packet(tags, OGG_OPUS_ARCHIVE_SERIAL, PacketEnd::Page, 0) {
            return Err(Error::Io(words));
        }
        let ghost second = WrittenPacket {
            data: tags_data,
            serial: OGG_OPUS_ARCHIVE_SERIAL,
            end: PacketEnd::Page,
            position: 0,
        };
        proof {
            lemma_segments_grow(Seq::<WrittenPacket>::empty().push(first), second);
            assert(ogg_written(writer) =~= heading(rate, vendor.spec_bytes()));
            assert(tags_data.subrange(0, 8) =~= tags_mark());
        }
        let frame_samples: usize = (rate * 20 / 1_000) as usize;
        let samples = chunk.sample_count();
        assert(samples / frame_samples <= samples / 2) by (nonlinear_arith)
            requires
                frame_samples >= 2,
        ;
        let frame_count: usize = if samples % frame_samples == 0 {
            samples / frame_samples
        } else {
            samples / frame_samples + 1
        };
        proof {
            lemma_rounded_up(samples as int, frame_samples as int);
        }
        Ok(
            OggOpusArchiveEncoder {
                audio: chunk,
                writer,
                frame_samples,
                frame_count,
                index: 0,
                segments: 1 + tags_segments,
            },
        )
    }

    fn opus_head(input_sample_rate: u32) -> (packet: Vec<u8>)
        ensures
            packet@ == opus_head_bytes(input_sample_rate),
    {
        let mut packet: Vec<u8> = vec![0x4F, 0x70, 0x75, 0x73, 0x48, 0x65, 0x61, 0x64];
        packet.push(1);
        packet.push(1);
        push_le16(&mut packet, 0);
        push_le32(&mut packet, input_sample_rate);
        push_le16(&mut packet, 0);
        packet.push(0);
        assert(packet@ =~= opus_head_bytes(input_sample_rate));
        packet
    }

    fn opus_tags(vendor: &[u8]) -> (packet: Vec<u8>)
        ensures
            packet@ == opus_tags_bytes(vendor@),
    {
        let mut packet: Vec<u8> = vec![0x4F, 0x70, 0x75, 0x73, 0x54, 0x61, 0x67, 0x73];
        let len: u32 = (vendor.len() as u64 % 0x1_0000_0000) as u32;
        push_le32(&mut packet, len);
        packet.extend_from_slice(vendor);
        push_le32(&mut packet, 0);
        assert(packet@ =~= opus_tags_bytes(vendor@));
        packet
    }

    pub fn sample_rate_hz(&self) -> (rate: u32)
        ensures
            rate == self.audio().of_format().sample_rate_hz@,
    {
        self.audio.sample_rate_hz().get()
    }

    /// How many samples the encoder takes at a time. A frame that holds fewer is filled up
    /// with silence.
    pub fn frame_samples(&self) -> (samples: usize)
        ensures
            samples == frame_samples_at(self.audio().of_format().sample_rate_hz@),
    {
        proof {
            use_type_invariant(self);
        }
        self.frame_samples
    }

    /// The audio of the next frame; nothing where all frames were handed over.
    pub fn next_frame(&self) -> (frame: Option<Vec<u8>>)
        ensures
            match frame {
                Some(frame) => {
                    &&& self.done() < frames_of(self.audio())
                    &&& frame@ == frame_bytes(self.audio(), self.done() as int)
                },
                None => self.done() == frames_of(self.audio()),
            },
    {
        proof {
            use_type_invariant(self);
        }
        if self.index >= self.frame_count {
            return None;
        }
        let samples = self.audio.sample_count();
        proof {
            lemma_frame_starts_within(
                samples as int,
                self.frame_samples as int,
                self.index as int,
            );
        }
        let start: usize = self.index * self.frame_samples;
        let end: usize = if samples - start > self.frame_samples {
            start + self.frame_samples
        } else {
            samples
        };
        let width: usize = self.audio.encoding().bytes_per_sample();
        proof {
            lemma_scaled(start as int, end as int, samples as int, width as int);
        }
        let data = self.audio.data();
        let len = data.len();
        assert(samples * width == len);
        Some(to_vec(slice_subrange(data, start * width, end * width)))
    }

    /// Whether there is room for a frame of so many bytes: the pages of an archive are
    /// counted in 32 bits.
    pub fn has_room(&self, len: usize) -> (room: bool)
        ensures
            room == (segments_of(self.packets()) + packet_segments(len as int) <= u32::MAX),
    {
        proof {
            use_type_invariant(self);
        }
        let segments: u64 = (len / 255) as u64;
        segments < u32::MAX as u64 && self.segments + segments + 1 <= u32::MAX as u64
    }

    /// Takes the next frame as it was encoded.
    pub fn push_frame(self, frame: Vec<u8>) -> (encoder: Result<Self, Error>)
        requires
            self.done() < frames_of(self.audio()),
            segments_of(self.packets()) + packet_segments(frame@.len() as int) <= u32::MAX,
        ensures
            encoder matches Ok(encoder) && {
                &&& encoder.audio() == self.audio()
                &&& encoder.done() == self.done() + 1
                &&& encoder.packets() == self.packets().push(
                    frame_packet(frame@, self.done() as int, frames_of(self.audio())),
                )
            },
    {
        proof {
            use_type_invariant(&self);
            lemma_segments_counted(ogg_written(self.writer));
        }
        let OggOpusArchiveEncoder {
            audio,
            writer,
            frame_samples,
            frame_count,
            index,
            segments,
        } = self;
        let mut writer = writer;
        let ghost before = ogg_written(writer);
        let ghost data = frame@;
        let own: u64 = (frame.len() / 255) as u64 + 1;
        let position: u64 = (index as u64 + 1) * OPUS_ARCHIVE_GRANULE_STEP;
        let end = if index + 1 == frame_count {
            PacketEnd::Stream
        } else {
            PacketEnd::Neither
        };
        if let Err(words) = writer.write_packet(frame, OGG_OPUS_ARCHIVE_SERIAL, end, position) {
            return Err(Error::Io(words));
        }
        proof {
            let packet = frame_packet(data, index as int, frame_count as int);
            lemma_segments_grow(before, packet);
            assert(ogg_written(writer) == before.push(packet));
            assert(before.push(packet)[1] == before[1]);
        }
        Ok(
            OggOpusArchiveEncoder {
                audio,
                writer,
                frame_samples,
                frame_count,
                index: index + 1,
                segments: segments + own,
            },
        )
    }

    /// The archive, when all frames were handed over. Its packets can be read back.
    pub fn finish(self) -> (archive: OggOpusAudioArchive)
        requires
            self.done() == frames_of(self.audio()),
        ensures
            archive.content@ == ogg_stream(self.packets()),
            archive.content@.len() >= 4,
            archive.content@.subrange(0, 4) == page_mark(),
            archive.original_bytes == self.audio().bytes().len(),
            archive.sample_rate_hz == self.audio().of_format().sample_rate_hz@,
            self.packets().len() == frames_of(self.audio()) + 2,
            archive_so_far(
                self.packets(),
                archive.sample_rate_hz,
                self.done() as int,
                frames_of(self.audio()),
            ),
            forall|reads: nat|
                reads <= self.packets().len() ==> #[trigger] ogg_read(archive.content@, reads)
                    == read_back(self.packets(), reads),
    {
        let samples = self.audio.sample_count();
        proof {
            use_type_invariant(&self);
            lemma_frames_to_write(self.audio.samples(), self.frame_samples as int);
            assert(one_stream(ogg_written(self.writer)));
        }
        let original_bytes = self.audio.byte_len();
        let sample_rate_hz = self.audio.sample_rate_hz().get();
        OggOpusAudioArchive { content: self.writer.into_bytes(), original_bytes, sample_rate_hz }
    }
}

/// The audio of the first frames, one after the other.
pub open spec fn joined_frames(chunk: PcmChunk, count: nat) -> Seq<u8>
    decreases count,
{
    if count == 0 {
        Seq::empty()
    } else {
        joined_frames(chunk, (count - 1) as nat) + frame_bytes(chunk, count - 1)
    }
}

/// The frames hold all of the audio in its order, and nothing else.
pub proof fn law_frames_hold_the_audio(chunk: PcmChunk)
    requires
        archived_rate(chunk.of_format().sample_rate_hz@),
        chunk.samples() * chunk.of_format().encoding.width() == chunk.bytes().len(),
    ensures
        joined_frames(chunk, frames_of(chunk) as nat) == chunk.bytes(),
{
    let samples = frame_samples_at(chunk.of_format().sample_rate_hz@);
    let count = frames_of(chunk);
    lemma_rounded_up(chunk.samples(), samples);
    vstd::arithmetic::div_mod::lemma_fundamental_div_mod(chunk.samples(), samples);
    assert(chunk.samples() % samples < samples) by (nonlinear_arith)
        requires
            samples > 0,
    ;
    assert(samples * (chunk.samples() / samples + 1) == samples * (chunk.samples() / samples)
        + samples) by (nonlinear_arith);
    assert(count * samples >= chunk.samples()) by {
        assert(count * samples == samples * count) by (nonlinear_arith);
    }
    lemma_first_frames(chunk, count as nat);
    assert(chunk.bytes().subrange(0, chunk.bytes().len() as int) =~= chunk.bytes());
}

proof fn lemma_first_frames(chunk: PcmChunk, count: nat)
    requires
        archived_rate(chunk.of_format().sample_rate_hz@),
        chunk.samples() * chunk.of_format().encoding.width() == chunk.bytes().len(),
        count <= frames_of(chunk),
    ensures
        joined_frames(chunk, count) == chunk.bytes().subrange(
            0,
            (if count * frame_samples_at(chunk.of_format().sample_rate_hz@) < chunk.samples() {
                count * frame_samples_at(chunk.of_format().sample_rate_hz@)
            } else {
                chunk.samples()
            }) * chunk.of_format().encoding.width(),
        ),
    decreases count,
{
    let samples = frame_samples_at(chunk.of_format().sample_rate_hz@);
    let width = chunk.of_format().encoding.width() as int;
    let all = chunk.bytes();
    if count > 0 {
        let start = (count - 1) * samples;
        lemma_first_frames(chunk, (count - 1) as nat);
        lemma_frame_starts_within(chunk.samples(), samples, count - 1);
        assert(count * samples == start + samples) by (nonlinear_arith)
            requires
                start == (count - 1) * samples,
        ;
        let end = if start + samples < chunk.samples() {
            start + samples
        } else {
            chunk.samples()
        };
        lemma_scaled(start, end, chunk.samples(), width);
        assert(all.subrange(0, start * width) + all.subrange(start * width, end * width)
            =~= all.subrange(0, end * width));
    } else {
        assert(count * samples == 0) by (nonlinear_arith)
            requires
                count == 0,
        ;
        assert(0 * width == 0);
        lemma_scaled(0, 0, 0, width);
        assert(joined_frames(chunk, 0) =~= all.subrange(0, 0));
    }
}

/// The first packet of an archive has nineteen bytes: eight letters, the version, the
/// channels, what is skipped, the rate with its low byte first, the gain, and the order of
/// the channels.
pub proof fn law_heads_on_disk(rate: u32)
    ensures
        ({
            let data = opus_head_bytes(rate);
            &&& data.len() == 19
            &&& data[0] == 'O' as u8 && data[1] == 'p' as u8 && data[2] == 'u' as u8 && data[3]
                == 's' as u8
            &&& data[4] == 'H' as u8 && data[5] == 'e' as u8 && data[6] == 'a' as u8 && data[7]
                == 'd' as u8
            &&& data[8] == 1 && data[9] == 1
            &&& data[10] == 0 && data[11] == 0
            &&& data[12] + 256 * data[13] + 65_536 * data[14] + 16_777_216 * data[15] == rate
            &&& data[16] == 0 && data[17] == 0 && data[18] == 0
        }),
{
    let data = opus_head_bytes(rate);
    let bytes = le32_bytes(rate);
    assert(data[12] == bytes[0] && data[13] == bytes[1] && data[14] == bytes[2] && data[15]
        == bytes[3]);
    assert('O' as u8 == 0x4f && 'p' as u8 == 0x70 && 'u' as u8 == 0x75 && 's' as u8 == 0x73
        && 'H' as u8 == 0x48 && 'e' as u8 == 0x65 && 'a' as u8 == 0x61 && 'd' as u8 == 0x64);
}

/// The second packet has eight letters, the length of the maker's name with its low byte
/// first, the name, and no comments.
pub proof fn law_tags_on_disk(vendor: Seq<u8>)
    requires
        vendor.len() < 0x1_0000_0000,
    ensures
        ({
            let data = opus_tags_bytes(vendor);
            &&& data.len() == vendor.len() + 16
            &&& data[0] == 'O' as u8 && data[1] == 'p' as u8 && data[2] == 'u' as u8 && data[3]
                == 's' as u8
            &&& data[4] == 'T' as u8 && data[5] == 'a' as u8 && data[6] == 'g' as u8 && data[7]
                == 's' as u8
            &&& data[8] + 256 * data[9] + 65_536 * data[10] + 16_777_216 * data[11] == vendor.len()
            &&& data.subrange(12, 12 + vendor.len() as int) == vendor
            &&& forall|i: int| 12 + vendor.len() <= i < data.len() ==> #[trigger] data[i] == 0
        }),
{
    let data = opus_tags_bytes(vendor);
    let bytes = le32_bytes(vendor.len() as u32);
    assert(data[8] == bytes[0] && data[9] == bytes[1] && data[10] == bytes[2] && data[11]
        == bytes[3]);
    assert(data.subrange(12, 12 + vendor.len() as int) =~= vendor);
}

/// Audio is archived at the rates that are a whole part of 48 kHz and so many times 4 kHz,
/// twice at the least; a frame of it is the fiftieth part of a second.
pub proof fn law_archived_rates(rate: u32)
    requires
        rate <= 48_000,
    ensures
        archived_rate(rate) ==> rate >= 8_000 && rate % 4_000 == 0 && 48_000u32 % rate == 0
            && frame_samples_at(rate) * 50 == rate,
        rate >= 8_000 && rate % 4_000 == 0 && 48_000u32 % rate == 0 ==> archived_rate(rate),
{
    let part = rate / 4_000;
    assert(rate == 4_000 * part + rate % 4_000);
    if rate >= 8_000 && rate % 4_000 == 0 {
        assert(2 <= part <= 12);
        assert(part == 2 || part == 3 || part == 4 || part == 5 || part == 6 || part == 7 || part
            == 8 || part == 9 || part == 10 || part == 11 || part == 12);
        assert(48_000u32 % 20_000 != 0 && 48_000u32 % 28_000 != 0 && 48_000u32 % 32_000 != 0
            && 48_000u32 % 36_000 != 0 && 48_000u32 % 40_000 != 0 && 48_000u32 % 44_000 != 0);
    }
}

/// Audio makes as many frames as it fills or begins, and no more.
pub proof fn law_frames_cover_the_audio(chunk: PcmChunk)
    requires
        archived_rate(chunk.of_format().sample_rate_hz@),
        chunk.samples() > 0,
    ensures
        ({
            let samples = frame_samples_at(chunk.of_format().sample_rate_hz@);
            (frames_of(chunk) - 1) * samples < chunk.samples() <= frames_of(chunk) * samples
        }),
{
    let samples = frame_samples_at(chunk.of_format().sample_rate_hz@);
    let total = chunk.samples() + samples - 1;
    vstd::arithmetic::div_mod::lemma_fundamental_div_mod(total, samples);
    vstd::arithmetic::div_mod::lemma_mod_bound(total, samples);
    let count = total / samples;
    assert(samples * count == count * samples && (count - 1) * samples == count * samples - samples)
        by (nonlinear_arith);
}

/// Every frame is counted as 20 ms at 48 kHz, whatever the rate of the audio: its position is
/// where it ends. The stream ends with the last frame, and with no other.
pub proof fn law_positions_count_time(data: Seq<u8>, index: int, frames: int)
    requires
        0 <= index < frames < 0x1_0000_0000,
    ensures
        ({
            let packet = frame_packet(data, index, frames);
            &&& packet.data == data
            &&& packet.position * 1_000 == (index + 1) * 20 * 48_000
            &&& packet.end is Stream == (index == frames - 1)
            &&& !(packet.end is Page)
            &&& packet.serial == heading(48_000, data)[0].serial
            &&& packet.serial == heading(48_000, data)[1].serial
        }),
{
}

} // verus!
