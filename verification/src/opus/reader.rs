//! Reading Ogg Opus audio.

use super::archive::{archive_so_far, head_mark, opus_head_bytes, tags_mark};
use super::ogg::{
    ogg_read, ogg_reads, ogg_source, read_back, shown, OggRead, OggReader, WrittenPacket,
};
use crate::bytes::{le32_bytes, same_bytes, to_vec};
use crate::errors::{Error, OpusError};
use vstd::prelude::*;
use vstd::slice::slice_subrange;

verus! {

/// What the first packet says.
#[derive(Clone, Copy, Debug, PartialEq, Eq, Structural)]
pub struct OggOpusHead {
    pub channels: u8,
    /// How many samples come before the audio.
    pub pre_skip: usize,
}

/// What comes of reading the first packet.
pub open spec fn head_of(data: Seq<u8>) -> Result<OggOpusHead, OpusError> {
    if data.len() < 19 || data.subrange(0, 8) != head_mark() {
        Err(OpusError::OggOpusMissingHead)
    } else if data[8] > 15 {
        Err(OpusError::OggOpusUnsupportedVersion { version: data[8] })
    } else if data[9] != 1 && data[9] != 2 {
        Err(OpusError::OggOpusUnsupportedChannelCount { channels: data[9] })
    } else if data[18] != 0 {
        Err(OpusError::OggOpusUnsupportedMappingFamily { mapping_family: data[18] })
    } else {
        Ok(
            OggOpusHead {
                channels: data[9],
                pre_skip: (data[10] as int + 256 * data[11] as int) as usize,
            },
        )
    }
}

/// Whether bytes begin with a mark of eight letters.
fn begins_with(data: &[u8], mark: &[u8; 8]) -> (begins: bool)
    ensures
        begins == (data@.len() >= 8 && data@.subrange(0, 8) == mark@),
{
    if data.len() < 8 {
        return false;
    }
    same_bytes(slice_subrange(data, 0, 8), mark)
}

impl OggOpusHead {
    pub fn parse(data: &[u8]) -> (head: Result<Self, Error>)
        ensures
            match head_of(data@) {
                Ok(parsed) => head == Ok::<Self, Error>(parsed),
                Err(error) => head == Err::<Self, Error>(Error::Opus(error)),
            },
    {
        let mark: [u8; 8] = [0x4F, 0x70, 0x75, 0x73, 0x48, 0x65, 0x61, 0x64];
        assert(mark@ =~= head_mark());
        if data.len() < 19 || !begins_with(data, &mark) {
            return Err(Error::Opus(OpusError::OggOpusMissingHead));
        }
        let version = data[8];
        if version > 15 {
            return Err(Error::Opus(OpusError::OggOpusUnsupportedVersion { version }));
        }
        let channels = data[9];
        if channels != 1 && channels != 2 {
            return Err(Error::Opus(OpusError::OggOpusUnsupportedChannelCount { channels }));
        }
        let mapping_family = data[18];
        if mapping_family != 0 {
            return Err(
                Error::Opus(OpusError::OggOpusUnsupportedMappingFamily { mapping_family }),
            );
        }
        Ok(OggOpusHead { channels, pre_skip: data[10] as usize + 256 * data[11] as usize })
    }
}

/// Whether an error says that reading failed, in these words.
pub open spec fn read_failure(error: Error, words: Seq<char>) -> bool {
    error matches Error::Opus(OpusError::OggOpusRead(text)) && text@ == words
}

/// What comes of the read that is to give the first packet.
pub open spec fn head_read(read: OggRead, head: Result<OggOpusHead, Error>) -> bool {
    match read {
        Err(words) => head matches Err(error) && read_failure(error, words),
        Ok(None) => head == Err::<OggOpusHead, Error>(Error::Opus(OpusError::OggOpusNoPackets)),
        Ok(Some(packet)) => if !packet.1 {
            head == Err::<OggOpusHead, Error>(Error::Opus(OpusError::OggOpusHeaderNotStart))
        } else {
            match head_of(packet.0) {
                Ok(parsed) => head == Ok::<OggOpusHead, Error>(parsed),
                Err(error) => head == Err::<OggOpusHead, Error>(Error::Opus(error)),
            }
        },
    }
}

/// Takes what the read for the first packet gave.
pub fn check_head(read: Result<Option<(Vec<u8>, bool)>, String>) -> (head: Result<
    OggOpusHead,
    Error,
>)
    ensures
        head_read(shown(read), head),
{
    match read {
        Err(words) => Err(Error::Opus(OpusError::OggOpusRead(words))),
        Ok(None) => Err(Error::Opus(OpusError::OggOpusNoPackets)),
        Ok(Some(packet)) => {
            if !packet.1 {
                return Err(Error::Opus(OpusError::OggOpusHeaderNotStart));
            }
            OggOpusHead::parse(packet.0.as_slice())
        },
    }
}

/// What comes of the read that is to give the tags.
pub open spec fn tags_read(read: OggRead, result: Result<(), Error>) -> bool {
    match read {
        Err(words) => result matches Err(error) && read_failure(error, words),
        Ok(None) => result == Err::<(), Error>(Error::Opus(OpusError::OggOpusMissingTags)),
        Ok(Some(packet)) => if packet.0.len() >= 8 && packet.0.subrange(0, 8) == tags_mark() {
            result == Ok::<(), Error>(())
        } else {
            result == Err::<(), Error>(Error::Opus(OpusError::OggOpusMissingTags))
        },
    }
}

/// Takes what the read for the tags gave.
pub fn check_tags(read: Result<Option<(Vec<u8>, bool)>, String>) -> (result: Result<(), Error>)
    ensures
        tags_read(shown(read), result),
{
    match read {
        Err(words) => Err(Error::Opus(OpusError::OggOpusRead(words))),
        Ok(None) => Err(Error::Opus(OpusError::OggOpusMissingTags)),
        Ok(Some(packet)) => {
            let mark: [u8; 8] = [0x4F, 0x70, 0x75, 0x73, 0x54, 0x61, 0x67, 0x73];
            assert(mark@ =~= tags_mark());
            if begins_with(packet.0.as_slice(), &mark) {
                Ok(())
            } else {
                Err(Error::Opus(OpusError::OggOpusMissingTags))
            }
        },
    }
}

/// What comes of a read that may give audio.
pub open spec fn audio_read(read: OggRead, packet: Result<Option<Vec<u8>>, Error>) -> bool {
    match read {
        Err(words) => packet matches Err(error) && read_failure(error, words),
        Ok(None) => packet == Ok::<Option<Vec<u8>>, Error>(None),
        Ok(Some(given)) => if given.1 {
            packet == Err::<Option<Vec<u8>>, Error>(
                Error::Opus(OpusError::OggOpusMultipleLogicalStreams),
            )
        } else {
            packet matches Ok(Some(data)) && data@ == given.0
        },
    }
}

/// Takes what a read for audio gave.
pub fn check_audio(read: Result<Option<(Vec<u8>, bool)>, String>) -> (packet: Result<
    Option<Vec<u8>>,
    Error,
>)
    ensures
        audio_read(shown(read), packet),
{
    match read {
        Err(words) => Err(Error::Opus(OpusError::OggOpusRead(words))),
        Ok(None) => Ok(None),
        Ok(Some(packet)) => {
            if packet.1 {
                return Err(Error::Opus(OpusError::OggOpusMultipleLogicalStreams));
            }
            Ok(Some(packet.0))
        },
    }
}

/// Why bytes are not opened before any packet is read, if they are not.
pub open spec fn open_fault(bytes: Seq<u8>, sample_rate_hz: u32) -> Option<OpusError> {
    if bytes.len() == 0 {
        Some(OpusError::OggOpusEmpty)
    } else if sample_rate_hz > i32::MAX {
        Some(OpusError::OggOpusOutputSampleRateTooLarge { sample_rate_hz })
    } else {
        None
    }
}

/// Ogg Opus audio that is being read.
pub struct OggOpusPackets {
    reader: OggReader,
    head: OggOpusHead,
    sample_rate_hz: u32,
    has_audio: bool,
}

/// What is known of the audio when all of it was decoded and mixed to one channel.
#[derive(Clone, Copy, Debug, PartialEq, Eq, Structural)]
pub struct OggOpusMonoLayout {
    /// How many samples at the start are left out.
    pub skipped: usize,
    pub input_channels: u8,
    pub source_pcm_bytes: usize,
    pub sample_rate_hz: u32,
}

/// What comes of opening bytes.
pub open spec fn opened(
    bytes: Seq<u8>,
    sample_rate_hz: u32,
    packets: Result<OggOpusPackets, Error>,
) -> bool {
    match open_fault(bytes, sample_rate_hz) {
        Some(error) => packets == Err::<OggOpusPackets, Error>(Error::Opus(error)),
        None => exists|head: Result<OggOpusHead, Error>|
            #[trigger] head_read(ogg_read(bytes, 0), head) && match head {
                Err(error) => packets == Err::<OggOpusPackets, Error>(error),
                Ok(head) => exists|tags: Result<(), Error>|
                    #[trigger] tags_read(ogg_read(bytes, 1), tags) && match tags {
                        Err(error) => packets == Err::<OggOpusPackets, Error>(error),
                        Ok(()) => {
                            &&& packets matches Ok(packets)
                            &&& packets.well_formed()
                            &&& packets.source() == bytes
                            &&& packets.taken() == 2
                            &&& packets.head() == head
                            &&& packets.rate() == sample_rate_hz
                            &&& !packets.any_audio()
                        },
                    },
            },
    }
}

impl OggOpusPackets {
    /// Whether there are one or two channels, as the first packet has to say.
    pub closed spec fn well_formed(self) -> bool {
        self.head.channels == 1 || self.head.channels == 2
    }

    /// The bytes that are read.
    pub closed spec fn source(self) -> Seq<u8> {
        ogg_source(self.reader)
    }

    /// How many packets were asked for.
    pub closed spec fn taken(self) -> nat {
        ogg_reads(self.reader)
    }

    pub closed spec fn head(self) -> OggOpusHead {
        self.head
    }

    pub closed spec fn rate(self) -> u32 {
        self.sample_rate_hz
    }

    /// Whether there was audio so far.
    pub closed spec fn any_audio(self) -> bool {
        self.has_audio
    }

    /// Reads what comes before the audio.
    pub fn open(bytes: &[u8], sample_rate_hz: u32) -> (packets: Result<Self, Error>)
        ensures
            opened(bytes@, sample_rate_hz, packets),
    {
        if bytes.len() == 0 {
            return Err(Error::Opus(OpusError::OggOpusEmpty));
        }
        if sample_rate_hz > i32::MAX as u32 {
            return Err(
                Error::Opus(OpusError::OggOpusOutputSampleRateTooLarge { sample_rate_hz }),
            );
        }
        let mut reader = OggReader::new(to_vec(bytes));
        let checked = check_head(reader.read_packet());
        assert(head_read(ogg_read(bytes@, 0), checked));
        let head = match checked {
            Err(error) => {
                return Err(error);
            },
            Ok(head) => head,
        };
        let tags = check_tags(reader.read_packet());
        assert(tags_read(ogg_read(bytes@, 1), tags));
        if let Err(error) = tags {
            return Err(error);
        }
        Ok(OggOpusPackets { reader, head, sample_rate_hz, has_audio: false })
    }

    pub fn channels(&self) -> (channels: u8)
        requires
            self.well_formed(),
        ensures
            channels == self.head().channels,
            channels == 1 || channels == 2,
    {
        self.head.channels
    }

    /// How many samples a packet can hold in each channel: those of 120 ms.
    pub fn max_samples_per_channel(&self) -> (samples: usize)
        ensures
            samples == self.rate() as int * 120 / 1_000,
    {
        (self.sample_rate_hz as u64 * 120 / 1_000) as usize
    }

    /// The next packet of audio; nothing where there is no more.
    pub fn next_packet(&mut self) -> (packet: Result<Option<Vec<u8>>, Error>)
        requires
            old(self).well_formed(),
        ensures
            final(self).well_formed(),
            audio_read(ogg_read(old(self).source(), old(self).taken()), packet),
            final(self).source() == old(self).source(),
            final(self).taken() == old(self).taken() + 1,
            final(self).head() == old(self).head(),
            final(self).rate() == old(self).rate(),
            final(self).any_audio() == (old(self).any_audio() || packet matches Ok(Some(_))),
    {
        let packet = check_audio(self.reader.read_packet());
        if let Ok(Some(_)) = &packet {
            self.has_audio = true;
        }
        packet
    }

    /// What is known of the audio when it is mixed to so many samples.
    pub fn finish(&self, samples: usize) -> (layout: Result<OggOpusMonoLayout, Error>)
        requires
            self.well_formed(),
            samples * 4 <= isize::MAX,
        ensures
            layout == (if !self.any_audio() {
                Err::<OggOpusMonoLayout, Error>(Error::Opus(OpusError::OggOpusNoAudioPackets))
            } else if self.head().pre_skip >= samples {
                Err::<OggOpusMonoLayout, Error>(Error::Opus(OpusError::OggOpusNoAudioAfterPreSkip))
            } else {
                Ok::<OggOpusMonoLayout, Error>(
                    OggOpusMonoLayout {
                        skipped: self.head().pre_skip,
                        input_channels: self.head().channels,
                        source_pcm_bytes: ((samples - self.head().pre_skip)
                            * self.head().channels * 4) as usize,
                        sample_rate_hz: self.rate(),
                    },
                )
            }),
    {
        if !self.has_audio {
            return Err(Error::Opus(OpusError::OggOpusNoAudioPackets));
        }
        if self.head.pre_skip >= samples {
            return Err(Error::Opus(OpusError::OggOpusNoAudioAfterPreSkip));
        }
        let left: usize = samples - self.head.pre_skip;
        assert(left * self.head.channels <= left * 2) by (nonlinear_arith)
            requires
                self.head.channels <= 2,
        ;
        Ok(
            OggOpusMonoLayout {
                skipped: self.head.pre_skip,
                input_channels: self.head.channels,
                source_pcm_bytes: left * self.head.channels as usize * 4,
                sample_rate_hz: self.sample_rate_hz,
            },
        )
    }
}

/// What an archive says of itself is read back: one channel, and nothing to skip.
pub proof fn law_archive_heads_are_read(rate: u32)
    ensures
        head_of(opus_head_bytes(rate)) == Ok::<OggOpusHead, OpusError>(
            OggOpusHead { channels: 1, pre_skip: 0 },
        ),
{
    let data = opus_head_bytes(rate);
    assert(le32_bytes(rate).len() == 4);
    assert(data.subrange(0, 8) =~= head_mark());
}

/// An archive is read back: it opens, the frames come in turn as they were handed over, and
/// then nothing more.
pub proof fn law_archives_are_read_back(
    content: Seq<u8>,
    packets: Seq<WrittenPacket>,
    rate: u32,
    frames: int,
    output_rate: u32,
    result: Result<OggOpusPackets, Error>,
    index: int,
    packet: Result<Option<Vec<u8>>, Error>,
)
    requires
        content.len() > 0,
        archive_so_far(packets, rate, frames, frames),
        forall|reads: nat|
            reads <= packets.len() ==> #[trigger] ogg_read(content, reads) == read_back(
                packets,
                reads,
            ),
        output_rate <= i32::MAX,
        opened(content, output_rate, result),
        0 <= index <= frames,
        audio_read(ogg_read(content, (index + 2) as nat), packet),
    ensures
        result matches Ok(opened) && opened.head() == (OggOpusHead { channels: 1, pre_skip: 0 }),
        match packet {
            Ok(Some(data)) => index < frames && data@ == packets[index + 2].data,
            Ok(None) => index == frames,
            Err(_) => false,
        },
{
    law_archive_heads_are_read(rate);
    assert(ogg_read(content, 0) == read_back(packets, 0));
    assert(ogg_read(content, 1) == read_back(packets, 1));
    assert(packets[0].data == opus_head_bytes(rate));
    assert(packets[0].data.len() < 65_025);
    assert(packets[1].data.subrange(0, 8) == tags_mark());
}

/// A head is read by its bytes: the version in the ninth, the channels in the tenth, what is
/// skipped in the next two with the low one first. What comes behind the nineteenth byte
/// does not matter.
pub proof fn law_heads_are_read(
    version: u8,
    channels: u8,
    skipped: u16,
    unread: Seq<u8>,
    rest: Seq<u8>,
)
    requires
        unread.len() == 6,
    ensures
        ({
            let mark = seq![
                'O' as u8,
                'p' as u8,
                'u' as u8,
                's' as u8,
                'H' as u8,
                'e' as u8,
                'a' as u8,
                'd' as u8,
            ];
            let data = mark + seq![
                version,
                channels,
                (skipped % 256) as u8,
                (skipped / 256) as u8,
            ] + unread + seq![0u8] + rest;
            let read = head_of(data);
            &&& read is Ok <==> version <= 15 && (channels == 1 || channels == 2)
            &&& read matches Ok(head) ==> head.channels == channels && head.pre_skip == skipped
        }),
{
    let mark = seq![
        'O' as u8,
        'p' as u8,
        'u' as u8,
        's' as u8,
        'H' as u8,
        'e' as u8,
        'a' as u8,
        'd' as u8,
    ];
    let data = mark + seq![version, channels, (skipped % 256) as u8, (skipped / 256) as u8]
        + unread + seq![0u8] + rest;
    assert('O' as u8 == 0x4f && 'p' as u8 == 0x70 && 'u' as u8 == 0x75 && 's' as u8 == 0x73
        && 'H' as u8 == 0x48 && 'e' as u8 == 0x65 && 'a' as u8 == 0x61 && 'd' as u8 == 0x64);
    assert(data.subrange(0, 8) =~= head_mark());
    assert(data[18] == 0);
}

/// What is too short, begins otherwise, or orders its channels in a way of its own is no
/// head.
pub proof fn law_other_packets_are_no_heads(data: Seq<u8>)
    ensures
        data.len() < 19 ==> head_of(data) is Err,
        data.len() >= 19 && (data[0] != 'O' as u8 || data[4] != 'H' as u8 || data[7] != 'd' as u8)
            ==> head_of(data) is Err,
        data.len() >= 19 && data[18] != 0 ==> head_of(data) is Err,
{
    if data.len() >= 19 && data.subrange(0, 8) == head_mark() {
        let start = data.subrange(0, 8);
        assert(start[0] == data[0] && start[4] == data[4] && start[7] == data[7]);
        assert('O' as u8 == 0x4f && 'H' as u8 == 0x48 && 'd' as u8 == 0x64);
    }
}

} // verus!
