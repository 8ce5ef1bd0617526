//! PCM, Opus packets and Ogg Opus archives.

use opus_rs::{Application as OpusApplication, OpusDecoder, OpusEncoder};
use rubato::audioadapter_buffers::direct::SequentialSliceOfVecs;
use rubato::{
    Async, FixedAsync, Indexing, Resampler, SincInterpolationParameters, SincInterpolationType,
    WindowFunction,
};

use cacophony::errors::{Error, InvalidInputError, OpusError, PcmError};
use cacophony::media::{DecodedFrame, DecodedPcmLayout, NoRawPackets, ReceivedFrame, RtpHeader};
use cacophony::nonzero::{NonZeroU32, NonZeroUsize};
use cacophony::opus::archive::OGG_OPUS_ARCHIVE_BITRATE_BPS;
use cacophony::opus::decoder::{decoded_metadata, decoder_channels, to_stereo};
use cacophony::opus::discord::config::{
    source_block_frames, validate_block_frames, validate_block_samples, validate_output_len,
};
use cacophony::opus::discord::{
    block_duration, Application, BlockCodec, BlockEncoder, ChunkCodec, DynamicPcmEncoder,
    DynamicPcmSource, EncodeConfig, Packet, PacketBatch, PacketSink,
    PlaybackAudio, CHANNELS, MAX_PACKET_BYTES, RTP_PAYLOAD_TYPE, SAMPLES_PER_CHANNEL,
    SAMPLE_RATE_HZ, STEREO_SAMPLES_PER_BLOCK,
};
use cacophony::opus::reader::{check_audio, check_head, check_tags};
use cacophony::opus::{
    opus_frame_channels, CapturedPcmAudio, OggOpusArchiveEncoder, OggOpusAudioArchive,
    OggOpusHead, OggOpusPackets,
};
use cacophony::pcm::{
    append_stereo_interleaved, checked_byte_sample_count, decode_alaw, decode_mulaw,
    interleaved_i16_to_mono_s16le, validate_channel_alignment, MuLaw, OutputTrim, PcmChunk,
    PcmEncoding, PcmFormat, ResampleRates, ResampleStep, S16Le, SampleEncoding, SourceBuffer,
};
use cacophony::time::Duration;
use cacophony::{Codec, MediaType, RtpPayloadType};

fn sine(sample_rate: u32, count: u32, pitch: f32, volume: f32) -> Vec<u8> {
    (0..count)
        .map(|index| {
            let phase = index as f32 / sample_rate as f32 * std::f32::consts::TAU * pitch;
            (phase.sin() * i16::MAX as f32 * volume) as i16
        })
        .flat_map(i16::to_le_bytes)
        .collect()
}

fn to_f32(bytes: &[u8]) -> Vec<f32> {
    bytes
        .chunks_exact(2)
        .map(|pair| f32::from(i16::from_le_bytes([pair[0], pair[1]])) / 32768.0)
        .collect()
}

fn finish_archive(mut archive: OggOpusArchiveEncoder) -> OggOpusAudioArchive {
    let frame_samples = archive.frame_samples();
    let mut encoder =
        OpusEncoder::new(archive.sample_rate_hz() as i32, 1, OpusApplication::Voip).unwrap();
    encoder.bitrate_bps = OGG_OPUS_ARCHIVE_BITRATE_BPS;
    encoder.use_cbr = false;
    let mut output = vec![0; 4096];
    while let Some(frame) = archive.next_frame() {
        let mut samples = to_f32(&frame);
        samples.resize(frame_samples, 0.0);
        let written = encoder
            .encode(&samples, frame_samples, &mut output)
            .unwrap();
        assert!(archive.has_room(written));
        archive = archive.push_frame(output[..written].to_vec()).ok().unwrap();
    }
    archive.finish()
}

fn archived(sample_rate: u32, samples: Vec<u8>) -> OggOpusAudioArchive {
    let audio = PcmChunk::from_mono_bytes(sample_rate, PcmEncoding::S16Le, samples)
        .expect("test PCM should validate");
    let encoder = CapturedPcmAudio::new(audio)
        .ok()
        .expect("captured PCM should validate")
        .encode_ogg_opus_archive("test")
        .ok()
        .expect("captured PCM should encode");
    finish_archive(encoder)
}

#[test]
fn captured_pcm_is_archived_as_ogg_opus() {
    let sample_rate = 16_000;
    let samples = sine(sample_rate, sample_rate, 220.0, 0.2);
    let archive = archived(sample_rate, samples.clone());

    assert!(archive.content.starts_with(b"OggS"));
    assert!(archive.content.len() < samples.len() / 2);
    assert_eq!(archive.original_bytes, samples.len());
    assert_eq!(archive.sample_rate_hz, sample_rate);
}

#[test]
fn ogg_opus_archive_decodes_to_mono_f32() {
    let sample_rate = 16_000;
    let archive = archived(sample_rate, sine(sample_rate, sample_rate / 2, 440.0, 0.1));

    let mut packets = OggOpusPackets::open(&archive.content, sample_rate)
        .ok()
        .expect("Ogg Opus should decode");
    let channels = usize::from(packets.channels());
    let mut decoder = OpusDecoder::new(sample_rate as i32, channels).unwrap();
    let mut samples = 0;
    let mut count = 0;
    while let Some(packet) = packets.next_packet().unwrap() {
        let max = packets.max_samples_per_channel();
        let mut decoded = vec![0.0_f32; max * channels];
        samples += decoder.decode(&packet, max, &mut decoded).unwrap();
        count += 1;
    }
    let layout = packets.finish(samples).unwrap();

    assert_eq!(layout.input_channels, 1);
    assert_eq!(layout.sample_rate_hz, sample_rate);
    assert_eq!(count, 25);
    assert!(samples > 0);
    assert_eq!(layout.source_pcm_bytes, samples * 4);
}

#[test]
fn archives_are_read_back() {
    let audio = PcmChunk::from_mono_bytes(8_000, PcmEncoding::S16Le, vec![0; 320 * 3 + 2]).unwrap();
    let mut encoder = CapturedPcmAudio::new(audio)
        .ok()
        .unwrap()
        .encode_ogg_opus_archive("vendor")
        .ok()
        .unwrap();
    let frames = [vec![1; 10], vec![2; 255], vec![3; 600], vec![4]];
    for frame in &frames {
        assert_eq!(encoder.frame_samples(), 160);
        assert!(encoder.next_frame().is_some());
        encoder = encoder.push_frame(frame.clone()).ok().unwrap();
    }
    assert!(encoder.next_frame().is_none());
    let archive = encoder.finish();
    let mut packets = OggOpusPackets::open(&archive.content, 48_000).ok().unwrap();
    assert_eq!(packets.channels(), 1);
    assert_eq!(packets.max_samples_per_channel(), 5_760);
    for frame in &frames {
        assert_eq!(packets.next_packet().unwrap().as_ref(), Some(frame));
    }
    assert_eq!(packets.next_packet().unwrap(), None);
}

#[test]
fn frames_hold_the_audio() {
    let data: Vec<u8> = (0..=255).cycle().take(700).collect();
    let audio = PcmChunk::from_mono_bytes(8_000, PcmEncoding::S16Le, data.clone()).unwrap();
    let mut encoder = CapturedPcmAudio::new(audio)
        .ok()
        .unwrap()
        .encode_ogg_opus_archive("vendor")
        .ok()
        .unwrap();
    let mut taken = Vec::new();
    while let Some(frame) = encoder.next_frame() {
        taken.extend(frame);
        encoder = encoder.push_frame(vec![1]).ok().unwrap();
    }
    assert_eq!(taken, data);
}

#[test]
fn unusable_archives_are_refused() {
    let mono = |rate, data| PcmChunk::from_mono_bytes(rate, PcmEncoding::S16Le, data).unwrap();
    let start = |chunk, vendor: &str| {
        CapturedPcmAudio::new(chunk)
            .ok()
            .unwrap()
            .encode_ogg_opus_archive(vendor)
            .err()
            .unwrap()
    };
    assert!(matches!(
        start(mono(16_000, vec![]), "v"),
        Error::InvalidInput(InvalidInputError::PcmArchiveEmpty)
    ));
    assert!(matches!(
        start(mono(44_100, vec![0, 0]), "v"),
        Error::InvalidInput(InvalidInputError::OggOpusUnsupportedSampleRate {
            sample_rate_hz: 44_100,
        })
    ));
    assert!(matches!(
        start(mono(16_000, vec![0, 0]), ""),
        Error::InvalidInput(InvalidInputError::OggOpusVendorEmpty)
    ));
    let stereo = PcmChunk::from_bytes(16_000, 2, PcmEncoding::S16Le, vec![0; 4]).unwrap();
    assert!(CapturedPcmAudio::new(stereo).is_err());
}

fn head(version: u8, channels: u8, family: u8) -> Vec<u8> {
    let mut data = b"OpusHead".to_vec();
    data.extend([version, channels, 0x34, 0x12, 0, 0, 0, 0, 0, 0, family]);
    data
}

#[test]
fn heads_are_parsed() {
    assert_eq!(
        OggOpusHead::parse(&head(1, 2, 0)).unwrap(),
        OggOpusHead {
            channels: 2,
            pre_skip: 0x1234,
        }
    );
    let refusal = |data: &[u8]| match OggOpusHead::parse(data) {
        Err(Error::Opus(error)) => error,
        _ => panic!("not a head"),
    };
    assert_eq!(refusal(b"OpusTags"), OpusError::OggOpusMissingHead);
    assert_eq!(
        refusal(&head(16, 1, 0)),
        OpusError::OggOpusUnsupportedVersion { version: 16 }
    );
    assert_eq!(
        refusal(&head(1, 3, 0)),
        OpusError::OggOpusUnsupportedChannelCount { channels: 3 }
    );
    assert_eq!(
        refusal(&head(1, 1, 1)),
        OpusError::OggOpusUnsupportedMappingFamily { mapping_family: 1 }
    );
}

#[test]
fn streams_begin_with_a_head_and_tags() {
    assert!(matches!(
        OggOpusPackets::open(&[], 48_000),
        Err(Error::Opus(OpusError::OggOpusEmpty))
    ));
    assert!(matches!(
        OggOpusPackets::open(&[1], u32::MAX),
        Err(Error::Opus(OpusError::OggOpusOutputSampleRateTooLarge {
            sample_rate_hz: u32::MAX,
        }))
    ));
    assert!(matches!(
        check_head(Err("broken".to_string())),
        Err(Error::Opus(OpusError::OggOpusRead(words))) if words == "broken"
    ));
    assert!(matches!(
        check_head(Ok(None)),
        Err(Error::Opus(OpusError::OggOpusNoPackets))
    ));
    assert!(matches!(
        check_head(Ok(Some((head(1, 1, 0), false)))),
        Err(Error::Opus(OpusError::OggOpusHeaderNotStart))
    ));
    assert!(check_head(Ok(Some((head(1, 1, 0), true)))).is_ok());
    assert!(matches!(
        check_tags(Ok(Some((b"OpusHead".to_vec(), false)))),
        Err(Error::Opus(OpusError::OggOpusMissingTags))
    ));
    assert!(matches!(
        check_tags(Ok(None)),
        Err(Error::Opus(OpusError::OggOpusMissingTags))
    ));
    assert!(check_tags(Ok(Some((b"OpusTags".to_vec(), false)))).is_ok());
    assert!(matches!(
        check_audio(Ok(Some((vec![1], true)))),
        Err(Error::Opus(OpusError::OggOpusMultipleLogicalStreams))
    ));
    assert_eq!(check_audio(Ok(Some((vec![1], false)))).unwrap(), Some(vec![1]));
}

#[test]
fn streams_without_audio_are_refused() {
    let archive = archived(16_000, vec![0; 640]);
    let mut packets = OggOpusPackets::open(&archive.content, 16_000).ok().unwrap();
    assert!(matches!(
        packets.finish(0),
        Err(Error::Opus(OpusError::OggOpusNoAudioPackets))
    ));
    packets.next_packet().unwrap();
    assert!(matches!(
        packets.finish(0),
        Err(Error::Opus(OpusError::OggOpusNoAudioAfterPreSkip))
    ));
    assert!(matches!(
        OggOpusPackets::open(b"not ogg", 16_000),
        Err(Error::Opus(_))
    ));
}

fn encoded_block(samples: &[f32]) -> Vec<u8> {
    let mut encoder =
        OpusEncoder::new(SAMPLE_RATE_HZ as i32, CHANNELS, OpusApplication::Audio).unwrap();
    let mut output = vec![0; MAX_PACKET_BYTES];
    let written = encoder
        .encode(samples, SAMPLES_PER_CHANNEL, &mut output)
        .unwrap();
    output.truncate(written);
    output
}

/// An encoder that writes these bytes.
fn writes(bytes: Vec<u8>) -> impl FnOnce(&mut Vec<u8>) -> Result<usize, Error> {
    move |buffer| {
        buffer.extend_from_slice(&bytes);
        Ok(bytes.len())
    }
}

#[test]
fn discord_packet_batch_encodes_frames_in_one_slab() {
    let mut samples = Vec::new();
    append_stereo_interleaved(&vec![0.0_f32; SAMPLES_PER_CHANNEL], &mut samples);
    let mut batch = PacketBatch::new();
    batch.encode_packet(writes(encoded_block(&samples))).unwrap();

    assert_eq!(batch.len(), 1);
    assert_eq!(batch.spans().len(), 1);
    assert!(!batch.bytes().is_empty());
    let packets = batch.iter();
    let packet = packets.first().expect("packet should be present");
    assert_eq!(packet.bytes(), batch.bytes());
    assert_eq!(packet.duration(), block_duration());
    assert_eq!(batch.into_packets().len(), 1);
}

#[test]
fn batches_keep_their_packets_apart() {
    let mut batch = PacketBatch::new();
    assert!(batch.is_empty());
    batch.encode_packet(writes(vec![1, 2])).unwrap();
    batch.encode_packet(writes(vec![3])).unwrap();
    assert_eq!(batch.bytes(), &[1, 2, 3]);
    let second = batch.spans()[1];
    assert_eq!(second.range(), 2..3);
    assert_eq!(batch.packet(second).bytes(), &[3]);
    assert_eq!(batch.packet(second).to_packet().into_bytes(), vec![3]);
    let packets = batch.into_packets();
    assert_eq!(packets[0].bytes(), &[1, 2]);
    let mut list: Vec<Packet> = Vec::new();
    list.encode_packet(writes(vec![9])).unwrap();
    assert_eq!(list[0].bytes(), &[9]);
}

#[test]
fn failed_packets_are_not_added() {
    let fails = |buffer: &mut Vec<u8>| {
        buffer.push(7);
        Err(Error::Io("broken".to_string()))
    };
    let mut batch = PacketBatch::new();
    batch.encode_packet(writes(vec![1, 2])).unwrap();
    assert!(matches!(
        batch.encode_packet(fails),
        Err(Error::Io(words)) if words == "broken"
    ));
    assert_eq!(batch.len(), 1);
    assert_eq!(batch.bytes(), &[1, 2]);
    let mut list: Vec<Packet> = Vec::new();
    assert!(list.encode_packet(fails).is_err());
    assert!(list.is_empty());
}

#[test]
fn packets_of_a_batch_make_up_its_bytes() {
    let mut batch = PacketBatch::new();
    for bytes in [vec![1, 2], Vec::new(), vec![3], vec![4, 5, 6]] {
        batch.encode_packet(writes(bytes)).unwrap();
    }
    let mut end = 0;
    for span in batch.spans() {
        assert_eq!(span.offset, end);
        end += span.len;
    }
    assert_eq!(end, batch.bytes().len());
    let mut row = Vec::new();
    for packet in batch.iter() {
        row.extend_from_slice(packet.bytes());
    }
    assert_eq!(row, batch.bytes());
    batch.clear();
    assert!(batch.spans().is_empty());
    batch.encode_packet(writes(vec![8])).unwrap();
    assert_eq!(batch.spans()[0].range(), 0..1);
    assert_eq!(batch.bytes(), &[8]);
}

/// A codec whose samples are bytes. A packet tells of its block: the first and the last
/// sample, and how many blocks came before. The block that `fails` counts to fails.
#[derive(Clone, Debug, PartialEq)]
struct Bytes {
    blocks: u8,
    fails: Option<u8>,
}

impl BlockCodec<u8> for Bytes {
    fn encode_block(self, block: &[u8]) -> (Self, Result<Vec<u8>, Error>) {
        assert_eq!(block.len(), STEREO_SAMPLES_PER_BLOCK);
        if self.fails == Some(self.blocks) {
            let failed = Bytes {
                fails: None,
                ..self
            };
            return (failed, Err(Error::Closed));
        }
        let packet = vec![block[0], block[block.len() - 1], self.blocks];
        let next = Bytes {
            blocks: self.blocks + 1,
            ..self
        };
        (next, Ok(packet))
    }
}

impl ChunkCodec<u8> for Bytes {
    fn for_format(format: PcmFormat) -> Result<Self, Error> {
        if format.encoding() == PcmEncoding::ALaw {
            return Err(Error::Closed);
        }
        Ok(Bytes {
            blocks: 0,
            fails: None,
        })
    }

    fn silence(&self) -> u8 {
        0
    }

    fn sample(&self, _: PcmEncoding, bytes: &[u8]) -> u8 {
        bytes[0]
    }

    fn resample(self, samples: &[u8]) -> (Self, Result<Vec<u8>, Error>) {
        let doubled = samples.iter().flat_map(|sample| [*sample, *sample]).collect();
        (self, Ok(doubled))
    }

    fn resample_rest(self) -> (Self, Result<Vec<u8>, Error>) {
        (self, Ok(vec![9; 2]))
    }
}

fn byte_chunk(rate: u32, channels: usize, data: Vec<u8>) -> PcmChunk {
    PcmChunk::from_bytes(rate, channels, PcmEncoding::MuLaw, data).unwrap()
}

#[test]
fn chunks_become_packets_without_gaps() {
    for (frames, packets) in [
        (vec![700, 700, 700], 3),
        (vec![960, 960], 2),
        (vec![1], 1),
        (vec![0], 0),
        (vec![], 0),
    ] {
        for channels in [1, 2] {
            let chunks: Vec<_> = frames
                .iter()
                .enumerate()
                .map(|(at, frames)| byte_chunk(48_000, channels, vec![at as u8 + 1; frames * channels]))
                .collect();
            let audio = PlaybackAudio::from_chunks::<u8, Bytes>(&chunks).ok().unwrap();
            assert_eq!(audio.packet_count(), packets);
        }
    }
    let chunks: Vec<_> = [1, 2, 3]
        .into_iter()
        .map(|sample| byte_chunk(48_000, 1, vec![sample; 700]))
        .collect();
    let audio = PlaybackAudio::from_chunks::<u8, Bytes>(&chunks).ok().unwrap();
    let told: Vec<_> = audio
        .clone_packets()
        .into_iter()
        .map(Packet::into_bytes)
        .collect();
    assert_eq!(told, vec![vec![1, 2, 0], vec![2, 3, 1], vec![3, 0, 2]]);
}

#[test]
fn sources_of_other_rates_are_resampled() {
    let mut encoder = DynamicPcmEncoder::<u8, Bytes>::new();
    assert!(!encoder.resampling_required());
    assert_eq!(encoder.source_sample_rate_hz(), 48_000);
    assert_eq!(encoder.finish().ok().unwrap(), Vec::new());
    let packets = encoder.push_chunk(&byte_chunk(24_000, 1, vec![5; 500])).ok().unwrap();
    assert_eq!(packets.len(), 1);
    assert!(encoder.resampling_required());
    assert_eq!(encoder.source_format().unwrap().sample_rate_hz().get(), 24_000);
    assert_eq!(encoder.source_pcm_bytes(), 500);
    assert_eq!(encoder.source_channel_count(), 1);
    assert_eq!(encoder.blocks.pending_samples_per_channel(), 40);
    assert!(matches!(
        encoder.push_chunk_batch(&byte_chunk(48_000, 1, vec![5])),
        Err(Error::InvalidInput(
            InvalidInputError::DiscordPcmMixedSampleRates { .. }
        ))
    ));
    let rest = encoder.finish_batch().ok().unwrap();
    assert_eq!(rest.into_packets()[0].bytes(), &[5, 0, 1]);
    assert_eq!(encoder.blocks.pending_samples_per_channel(), 0);
}

#[test]
fn sources_without_a_codec_are_refused() {
    let alaw = PcmChunk::from_mono_bytes(48_000, PcmEncoding::ALaw, vec![1; 4]).unwrap();
    let mut encoder = DynamicPcmEncoder::<u8, Bytes>::new();
    assert!(matches!(encoder.push_chunk(&alaw), Err(Error::Closed)));
    assert_eq!(encoder.source_pcm_bytes(), 0);
    assert!(matches!(
        encoder.push_chunk(&alaw),
        Err(Error::InvalidInput(
            InvalidInputError::DiscordPcmEncoderUninitialized
        ))
    ));
    assert_eq!(encoder.source_pcm_bytes(), 4);
    assert!(!encoder.resampling_required());
    assert!(matches!(
        PlaybackAudio::from_chunks::<u8, Bytes>(&vec![alaw]),
        Err(Error::Closed)
    ));
}

#[test]
fn blocks_that_fail_end_the_portion() {
    let fails = Bytes {
        blocks: 0,
        fails: Some(0),
    };
    let mut blocks = BlockEncoder::new();
    let mut packets: Vec<Packet> = Vec::new();
    let (codec, made) = blocks.encode_stereo(fails, &[1; 10], &mut packets);
    assert_eq!(made.ok(), Some(0));
    assert_eq!(blocks.pending_samples_per_channel(), 5);
    let (codec, made) = blocks.encode_stereo(codec, &[2; 4_000], &mut packets);
    assert!(matches!(made, Err(Error::Closed)));
    assert!(packets.is_empty());
    assert_eq!(blocks.pending_samples_per_channel(), 960);
    let (codec, made) = blocks.encode_stereo(codec, &[3; 2], &mut packets);
    assert_eq!(made.ok(), Some(1));
    assert_eq!(packets[0].bytes(), &[1, 2, 0]);
    assert_eq!(blocks.pending_samples_per_channel(), 1);
    let failing = Bytes {
        fails: Some(codec.blocks),
        ..codec
    };
    let (codec, made) = blocks.finish(failing, 0, &mut packets);
    assert!(made.is_err());
    assert_eq!(blocks.pending_samples_per_channel(), 960);
    let (_, made) = blocks.finish(codec, 0, &mut packets);
    assert_eq!(made.ok(), Some(1));
    assert_eq!(packets[1].bytes(), &[3, 0, 1]);
}

#[test]
fn discord_packet_accepts_one_20ms_opus_packet() {
    let packet = Packet::from_bytes(vec![0xf8, 0xff, 0xfe]).expect("silence frame is 20 ms");

    assert_eq!(packet.duration(), block_duration());
}

#[test]
fn discord_packet_rejects_non_20ms_opus_packet() {
    assert!(Packet::from_bytes(vec![0xf0]).is_err());
}

#[test]
fn packets_of_other_lengths_are_refused() {
    assert!(matches!(
        Packet::from_bytes(vec![]),
        Err(Error::Opus(_)) | Err(Error::InvalidInput(_))
    ));
    // Two frames of 10 ms last 20 ms; two of 20 ms do not.
    assert!(Packet::from_bytes(vec![0xf1, 0, 0]).is_ok());
    assert!(matches!(
        Packet::from_bytes(vec![0xf9, 0, 0]),
        Err(Error::Opus(OpusError::UnsupportedDiscordPacketDuration {
            expected_samples_per_channel: 960,
            actual_samples_per_channel: 1_920,
        }))
    ));
}

fn received(codec: Codec, frame: Vec<u8>) -> ReceivedFrame<NoRawPackets> {
    ReceivedFrame {
        raw: NoRawPackets,
        rtp: RtpHeader {
            version: 2,
            padding: false,
            extension: false,
            marker: false,
            payload_type: RtpPayloadType::new_const(RTP_PAYLOAD_TYPE),
            seq: 0,
            timestamp: 0,
            ssrc: 0,
            header_len: 12,
            encrypted_body_offset: 12,
        },
        user_id: Some(1),
        media_type: MediaType::Audio,
        codec,
        frame,
    }
}

fn decoded(frame: ReceivedFrame<NoRawPackets>) -> DecodedFrame<NoRawPackets> {
    let channels = decoder_channels(&frame).unwrap();
    let mut decoder = OpusDecoder::new(SAMPLE_RATE_HZ as i32, channels).unwrap();
    let mut output = vec![0.0_f32; 5_760 * channels];
    let count = decoder.decode(&frame.frame, 5_760, &mut output).unwrap();
    let samples: Vec<i16> = output[..count * channels]
        .iter()
        .map(|sample| (sample.clamp(-1.0, 1.0) * f32::from(i16::MAX)).round() as i16)
        .collect();
    let mut pcm = Vec::new();
    to_stereo(&samples, channels, &mut pcm);
    let metadata = decoded_metadata(frame, count);
    DecodedFrame {
        frame: metadata.frame,
        pcm_layout: metadata.pcm_layout,
        pcm,
    }
}

#[test]
fn opus_round_trip_decodes_one_discord_frame() {
    let samples = (0..STEREO_SAMPLES_PER_BLOCK)
        .map(|index| {
            let phase = index as f32 / SAMPLE_RATE_HZ as f32 * std::f32::consts::TAU;
            phase.sin() * 0.1
        })
        .collect::<Vec<_>>();
    validate_block_samples(samples.len()).unwrap();
    let decoded = decoded(received(Codec::Opus, encoded_block(&samples)));

    assert_eq!(decoded.pcm_layout.sample_rate_hz, SAMPLE_RATE_HZ);
    assert_eq!(decoded.pcm_layout.channels, CHANNELS);
    assert_eq!(decoded.pcm_layout.samples_per_channel, SAMPLES_PER_CHANNEL);
    assert_eq!(decoded.pcm.len(), STEREO_SAMPLES_PER_BLOCK);
}

#[test]
fn opus_decoder_accepts_mono_discord_speech_frames() {
    let samples = (0..SAMPLES_PER_CHANNEL)
        .map(|index| {
            let phase = index as f32 / SAMPLE_RATE_HZ as f32 * std::f32::consts::TAU;
            phase.sin() * 0.1
        })
        .collect::<Vec<_>>();
    let mut encoder = OpusEncoder::new(SAMPLE_RATE_HZ as i32, 1, OpusApplication::Voip).unwrap();
    let mut opus = vec![0; 4096];
    let written = encoder
        .encode(&samples, SAMPLES_PER_CHANNEL, &mut opus)
        .unwrap();
    let decoded = decoded(received(Codec::Opus, opus[..written].to_vec()));

    assert_eq!(decoded.pcm_layout.sample_rate_hz, SAMPLE_RATE_HZ);
    assert_eq!(decoded.pcm_layout.channels, CHANNELS);
    assert_eq!(decoded.pcm_layout.samples_per_channel, SAMPLES_PER_CHANNEL);
    assert_eq!(decoded.pcm.len(), STEREO_SAMPLES_PER_BLOCK);
    for frame in decoded.pcm.chunks_exact(CHANNELS) {
        assert_eq!(frame[0], frame[1]);
    }
}

#[test]
fn frames_of_other_codecs_are_not_decoded() {
    assert!(matches!(
        decoder_channels(&received(Codec::Vp8, vec![1])),
        Err(Error::Opus(OpusError::UnsupportedVoiceCodec { codec: Codec::Vp8 }))
    ));
    assert!(matches!(
        opus_frame_channels(&[]),
        Err(Error::Opus(OpusError::EmptyFrame))
    ));
    assert_eq!(opus_frame_channels(&[0xf8]).unwrap(), 1);
    assert_eq!(opus_frame_channels(&[0xfc]).unwrap(), 2);
}

#[test]
fn blocks_and_buffers_have_their_sizes() {
    assert!(matches!(
        validate_block_samples(5),
        Err(Error::InvalidInput(InvalidInputError::PcmBlockSampleCount {
            expected: 1_920,
            actual: 5,
        }))
    ));
    assert!(matches!(
        validate_block_frames(5),
        Err(Error::InvalidInput(InvalidInputError::PcmBlockFrameCount {
            expected: 960,
            actual: 5,
        }))
    ));
    assert!(matches!(
        validate_output_len(5),
        Err(Error::InvalidInput(InvalidInputError::OpusOutputBufferTooSmall {
            min_len: 4_096,
            len: 5,
        }))
    ));
    assert_eq!(source_block_frames(NonZeroU32::new(24_000).unwrap()), 480);
    let config = EncodeConfig::default();
    assert_eq!(config.application, Application::default());
    assert_eq!(config.encoder_bitrate().unwrap(), 128_000);
    let too_fast = EncodeConfig {
        bitrate_bps: NonZeroU32::new(u32::MAX).unwrap(),
        ..config
    };
    assert!(matches!(
        too_fast.encoder_bitrate(),
        Err(Error::InvalidInput(InvalidInputError::OpusBitrateTooLarge {
            bitrate_bps: u32::MAX,
        }))
    ));
}

fn append_f32(chunk: &PcmChunk, samples: &mut Vec<f32>) -> usize {
    let before = samples.len();
    match chunk.encoding() {
        PcmEncoding::S16Le => samples.extend(
            chunk
                .data()
                .chunks_exact(2)
                .map(|pair| i16::from_le_bytes([pair[0], pair[1]]))
                .map(|sample| {
                    f32::from(sample) / if sample < 0 { 32768.0 } else { 32767.0 }
                }),
        ),
        PcmEncoding::MuLaw => samples.extend(
            chunk
                .data()
                .iter()
                .map(|sample| f32::from(decode_mulaw(*sample)) / 32768.0),
        ),
        PcmEncoding::ALaw => samples.extend(
            chunk
                .data()
                .iter()
                .map(|sample| f32::from(decode_alaw(*sample)) / 32768.0),
        ),
        PcmEncoding::F32Le => unreachable!(),
    }
    samples.len() - before
}

#[test]
fn pcm_runtime_chunk_validates_and_decodes_s16le() {
    let bytes = [1234_i16, -1234_i16]
        .into_iter()
        .flat_map(i16::to_le_bytes)
        .collect::<Vec<_>>();
    let chunk =
        PcmChunk::from_mono_bytes(16_000, PcmEncoding::parse("pcm_s16le").unwrap(), bytes).unwrap();
    let mut samples = Vec::new();

    assert_eq!(chunk.frame_count(), 2);
    assert_eq!(append_f32(&chunk, &mut samples), 2);
    assert!((samples[0] - 1234.0 / 32767.0).abs() < 0.000_001);
    assert!((samples[1] + 1234.0 / 32768.0).abs() < 0.000_001);
}

#[test]
fn pcm_companded_silence_decodes_near_zero() {
    for (encoding, silence) in [(PcmEncoding::MuLaw, 0xff), (PcmEncoding::ALaw, 0xd5)] {
        let chunk = PcmChunk::from_mono_bytes(8_000, encoding, vec![silence; 160]).unwrap();
        let mut samples = Vec::new();

        append_f32(&chunk, &mut samples);

        assert_eq!(samples.len(), 160);
        assert!(samples.iter().all(|sample| sample.abs() < 0.001));
    }
}

#[test]
fn pcm_marker_companded_samples_decode() {
    let mulaw: Vec<f32> = vec![0xff_u8; 8]
        .into_iter()
        .map(|sample| f32::from(decode_mulaw(sample)) / 32768.0)
        .collect();
    let alaw: Vec<f32> = vec![0xd5_u8; 8]
        .into_iter()
        .map(|sample| f32::from(decode_alaw(sample)) / 32768.0)
        .collect();

    assert!(mulaw.iter().all(|sample| sample.abs() < 0.001));
    assert!(alaw.iter().all(|sample| sample.abs() < 0.001));
}

#[test]
fn companded_samples_have_their_values() {
    assert_eq!(decode_mulaw(0xff), 0);
    assert_eq!(decode_mulaw(0x00), -32_124);
    assert_eq!(decode_mulaw(0x80), 32_124);
    assert_eq!(decode_alaw(0xd5), 8);
    assert_eq!(decode_alaw(0x55), -8);
    assert_eq!(decode_alaw(0xaa), 32_256);
}

#[test]
fn pcm_interleaved_downmix_and_rms_are_checked() {
    let mono = interleaved_i16_to_mono_s16le(&[1000, -1000, 2000, -2000], 2).unwrap();

    assert_eq!(mono, vec![0, 0, 0, 0]);
    let rms = (to_f32(&mono).iter().map(|sample| sample * sample).sum::<f32>() / 2.0).sqrt();
    assert_eq!(rms, 0.0);
}

#[test]
fn downmixes_are_means() {
    let mono = interleaved_i16_to_mono_s16le(&[3, 4, -3, -4], 2).unwrap();
    assert_eq!(mono, [3_i16.to_le_bytes(), (-3_i16).to_le_bytes()].concat());
    assert!(matches!(
        interleaved_i16_to_mono_s16le(&[1, 2, 3], 2),
        Err(Error::Pcm(PcmError::ChannelAlignment {
            channels: 2,
            samples: 3,
        }))
    ));
    assert!(matches!(
        interleaved_i16_to_mono_s16le(&[1], 0),
        Err(Error::Pcm(PcmError::ChannelCountZero))
    ));
    let frame = DecodedFrame {
        frame: received(Codec::Opus, vec![]),
        pcm_layout: DecodedPcmLayout {
            sample_rate_hz: 48_000,
            channels: 2,
            samples_per_channel: 1,
        },
        pcm: vec![10, 20],
    };
    assert_eq!(frame.to_mono_s16le_bytes().unwrap(), 15_i16.to_le_bytes());
}

#[test]
fn chunks_are_aligned() {
    assert!(matches!(
        PcmChunk::from_mono_bytes(0, PcmEncoding::S16Le, vec![]),
        Err(Error::Pcm(PcmError::SampleRateZero))
    ));
    assert!(matches!(
        PcmChunk::from_bytes(8_000, 0, PcmEncoding::S16Le, vec![]),
        Err(Error::Pcm(PcmError::ChannelCountZero))
    ));
    assert!(matches!(
        PcmChunk::from_mono_bytes(8_000, PcmEncoding::S16Le, vec![0; 3]),
        Err(Error::Pcm(PcmError::SampleAlignment {
            byte_len: 3,
            sample_bytes: 2,
            ..
        }))
    ));
    assert!(matches!(
        PcmChunk::from_bytes(8_000, 2, PcmEncoding::S16Le, vec![0; 6]),
        Err(Error::Pcm(PcmError::ChannelAlignment {
            channels: 2,
            samples: 3,
        }))
    ));
    let format = PcmFormat::from_parts(8_000, 2, PcmEncoding::F32Le).unwrap();
    let chunk = PcmChunk::with_format(format, vec![0; 16]).unwrap();
    assert_eq!((chunk.sample_count(), chunk.frame_count()), (4, 2));
    assert_eq!(chunk.data_arc().len(), 16);
    assert_eq!(chunk.copy().into_data(), vec![0; 16]);
    let rate = NonZeroU32::new(8_000).unwrap();
    let mono = PcmChunk::new_mono(rate, PcmEncoding::MuLaw, vec![1, 2, 3]).unwrap();
    assert_eq!((mono.frame_count(), mono.into_data()), (3, vec![1, 2, 3]));
    assert_eq!(chunk.channels(), NonZeroUsize::new(2).unwrap());
    assert_eq!(checked_byte_sample_count::<S16Le>(6).unwrap(), 3);
    assert!(validate_channel_alignment(2, 3).is_err());
}

#[test]
fn encoding_names_are_distinct() {
    for encoding in [
        PcmEncoding::F32Le,
        PcmEncoding::S16Le,
        PcmEncoding::MuLaw,
        PcmEncoding::ALaw,
    ] {
        assert_eq!(PcmEncoding::parse(encoding.as_str()).unwrap(), encoding);
    }
    assert!(matches!(
        PcmEncoding::parse("pcm_s24le"),
        Err(Error::Pcm(PcmError::UnsupportedEncoding(name))) if name == "pcm_s24le"
    ));
    assert_eq!(MuLaw::name(), PcmEncoding::MuLaw.sample_encoding_name());
}

#[test]
fn numbers_are_their_values() {
    assert_eq!(NonZeroU32::new(0), None);
    assert_eq!(NonZeroU32::new(7).unwrap().get(), 7);
    assert_eq!(NonZeroUsize::one().get(), 1);
    assert_eq!(NonZeroUsize::new(0), None);
}

#[test]
fn blocks_do_not_depend_on_portions() {
    let samples: Vec<u8> = (0..5_000_u32).map(|i| (i % 251) as u8).collect();
    let new = Bytes {
        blocks: 0,
        fails: None,
    };
    let mut whole = BlockEncoder::new();
    let mut packets: Vec<Packet> = Vec::new();
    let (codec, made) = whole.encode_stereo(new.clone(), &samples, &mut packets);
    assert_eq!(made.ok(), Some(2));
    let (_, made) = whole.finish(codec, 0, &mut packets);
    assert_eq!(made.ok(), Some(1));
    let mut portions = BlockEncoder::new();
    let mut collected: Vec<Packet> = Vec::new();
    let mut codec = new;
    for portion in samples.chunks(37) {
        codec = portions.encode_stereo(codec, portion, &mut collected).0;
    }
    assert_eq!(portions.pending_samples_per_channel(), (5_000 - 2 * 1_920) / 2);
    codec = portions.finish(codec, 0, &mut collected).0;
    assert_eq!(collected, packets);
    let (_, made) = portions.finish(codec, 0, &mut collected);
    assert_eq!(made.ok(), Some(0));
}

#[test]
fn source_samples_wait_for_the_resampler() {
    let mut buffer = SourceBuffer::new(2);
    assert_eq!(buffer.append(&[1, 10, 2, 20, 3, 30]).unwrap(), 3);
    assert!(matches!(
        buffer.append(&[1]),
        Err(Error::Pcm(PcmError::ChannelAlignment {
            channels: 2,
            samples: 1,
        }))
    ));
    assert_eq!(buffer.input(4, 3, 0), vec![vec![1, 2, 3, 0], vec![10, 20, 30, 0]]);
    let mut trim = OutputTrim {
        trim_output_frames: 1,
        emitted_output_frames: 0,
    };
    assert_eq!(trim.next(&buffer, 2, None, false), ResampleStep::Full);
    assert_eq!(trim.next(&buffer, 4, None, false), ResampleStep::Done);
    buffer.consume(2);
    assert_eq!(buffer.frames(), 1);
    let mut output = Vec::new();
    let rows = vec![vec![5, 6, 7], vec![50, 60, 70]];
    trim.append(&rows, 3, None, &mut output);
    assert_eq!(output, vec![6, 60, 7, 70]);
    buffer.clear();
    assert_eq!(buffer.frames(), 0);
}

#[test]
fn sources_keep_one_format() {
    let mut source = DynamicPcmSource::new();
    let chunk = |rate| PcmChunk::from_mono_bytes(rate, PcmEncoding::S16Le, vec![0; 4]).unwrap();
    source.accept_chunk(&chunk(24_000)).unwrap();
    source.accept_chunk(&chunk(24_000)).unwrap();
    assert_eq!(source.source_sample_rate_hz(), 24_000);
    assert_eq!(source.source_pcm_bytes(), 8);
    assert_eq!(source.source_channel_count(), 1);
    assert!(matches!(
        source.accept_chunk(&chunk(48_000)),
        Err(Error::InvalidInput(InvalidInputError::DiscordPcmMixedSampleRates {
            existing: 24_000,
            actual: 48_000,
        }))
    ));
    let stereo = PcmChunk::from_bytes(24_000, 2, PcmEncoding::S16Le, vec![0; 4]).unwrap();
    assert!(matches!(
        source.accept_chunk(&stereo),
        Err(Error::InvalidInput(
            InvalidInputError::DiscordPcmMixedChannelCounts {
                existing: 1,
                actual: 2,
            }
        ))
    ));
    let mulaw = PcmChunk::from_mono_bytes(24_000, PcmEncoding::MuLaw, vec![0; 4]).unwrap();
    assert!(matches!(
        source.accept_chunk(&mulaw),
        Err(Error::InvalidInput(InvalidInputError::DiscordPcmMixedEncoding))
    ));
}

#[test]
fn playback_audio_knows_its_source() {
    let packet = Packet::from_bytes(vec![0xf8, 0xff, 0xfe]).unwrap();
    let chunks = vec![
        PcmChunk::from_mono_bytes(48_000, PcmEncoding::S16Le, vec![0; 1_920]).unwrap(),
    ];
    let audio = PlaybackAudio::with_packets(&chunks, vec![packet]).ok().unwrap();
    assert_eq!(audio.packet_count(), 1);
    assert_eq!(audio.source_sample_rate_hz(), 48_000);
    assert_eq!(audio.source_channel_count(), 1);
    assert_eq!(audio.source_pcm_bytes(), 1_920);
    assert_eq!(audio.clone_packets()[0].bytes(), &[0xf8, 0xff, 0xfe]);
    let surround = PcmChunk::from_bytes(48_000, 6, PcmEncoding::S16Le, vec![0; 12]).unwrap();
    assert!(matches!(
        PlaybackAudio::from_chunks::<u8, Bytes>(&vec![surround]),
        Err(Error::Opus(OpusError::UnsupportedChannelCount { channels: 6 }))
    ));
}

#[test]
fn blocks_last_as_long_as_packets() {
    assert_eq!(block_duration(), Duration::from_millis(20));
    assert_eq!(
        SAMPLES_PER_CHANNEL as u64 * 1_000 / u64::from(SAMPLE_RATE_HZ),
        20
    );
}

/// One channel of audio on its way through a resampler.
struct MonoResampler {
    rates: ResampleRates,
    resampler: Async<f32>,
    ratio: f64,
    source: SourceBuffer<f32>,
    trim: OutputTrim,
    received: usize,
}

impl MonoResampler {
    fn new(input_hz: u32, output_hz: u32, chunk_frames: usize) -> Self {
        let rates = ResampleRates::from_hz(input_hz, output_hz, 1, chunk_frames).unwrap();
        let ratio = f64::from(rates.output_sample_rate_hz().get())
            / f64::from(rates.input_sample_rate_hz().get());
        let resampler = Async::<f32>::new_sinc(
            ratio,
            1.0,
            &SincInterpolationParameters {
                sinc_len: 256,
                f_cutoff: 0.95,
                oversampling_factor: 256,
                interpolation: SincInterpolationType::Cubic,
                window: WindowFunction::BlackmanHarris2,
            },
            chunk_frames,
            1,
            FixedAsync::Input,
        )
        .unwrap();
        let trim = OutputTrim {
            trim_output_frames: resampler.output_delay(),
            emitted_output_frames: 0,
        };
        Self {
            rates,
            resampler,
            ratio,
            source: SourceBuffer::new(1),
            trim,
            received: 0,
        }
    }

    fn push(&mut self, samples: &[f32]) -> Vec<f32> {
        self.received += self.source.append(samples).unwrap();
        self.process(None)
    }

    fn finish(&mut self) -> Vec<f32> {
        let expected = (self.ratio * self.received as f64).ceil() as usize;
        self.process(Some(expected))
    }

    fn process(&mut self, expected: Option<usize>) -> Vec<f32> {
        let mut output = Vec::new();
        let mut after_full = false;
        loop {
            let wanted = self.resampler.input_frames_next();
            let partial = match self.trim.next(&self.source, wanted, expected, after_full) {
                ResampleStep::Done => return output,
                ResampleStep::Full => None,
                ResampleStep::Partial(frames) => Some(frames),
            };
            let rows = self.source.input(wanted, partial.unwrap_or(wanted), 0.0);
            let room = self.resampler.output_frames_next();
            let mut resampled = vec![vec![0.0_f32; room]];
            let indexing = partial.map(|partial_len| Indexing {
                input_offset: 0,
                output_offset: 0,
                partial_len: Some(partial_len),
                active_channels_mask: None,
            });
            let (consumed, written) = {
                let input = SequentialSliceOfVecs::new(&rows, 1, wanted).unwrap();
                let mut into = SequentialSliceOfVecs::new_mut(&mut resampled, 1, room).unwrap();
                self.resampler
                    .process_into_buffer(&input, &mut into, indexing.as_ref())
                    .unwrap()
            };
            match partial {
                None => self.source.consume(consumed),
                Some(_) => self.source.clear(),
            }
            self.trim.append(&resampled, written, expected, &mut output);
            after_full = partial.is_none();
        }
    }
}

#[test]
fn pcm_streaming_resampler_outputs_16khz_and_flushes_tail() {
    let mut resampler = MonoResampler::new(48_000, 16_000, SAMPLES_PER_CHANNEL);

    let first = resampler.push(&vec![0.25; SAMPLES_PER_CHANNEL]);
    let flushed = resampler.finish();

    assert!(resampler.rates.resampling_required());
    assert_eq!(first.len() + flushed.len(), 320);
}

#[test]
fn resampling_is_needed_where_the_rates_differ() {
    let same = ResampleRates::from_hz(48_000, 48_000, 1, 960).unwrap();
    assert!(!same.resampling_required());
    assert_eq!(same.input_sample_rate_hz().get(), 48_000);
    let rate = NonZeroU32::new(24_000).unwrap();
    let other = ResampleRates::new(rate, same.output_sample_rate_hz(), 2, 480).unwrap();
    assert!(other.resampling_required());
    assert_eq!(other.output_sample_rate_hz().get(), 48_000);
    assert!(matches!(
        ResampleRates::from_hz(0, 48_000, 0, 0),
        Err(Error::Pcm(PcmError::SampleRateZero))
    ));
    assert!(matches!(
        ResampleRates::from_hz(48_000, 0, 1, 960),
        Err(Error::Pcm(PcmError::SampleRateZero))
    ));
    assert!(matches!(
        ResampleRates::new(rate, rate, 0, 0),
        Err(Error::Pcm(PcmError::ChannelCountZero))
    ));
    assert!(matches!(
        ResampleRates::new(rate, rate, 1, 0),
        Err(Error::Pcm(PcmError::ResamplerChunkFramesZero))
    ));
}

/// One channel of audio on its way to Opus.
struct OpusMono {
    encoder: OpusEncoder,
    resampler: MonoResampler,
}

impl BlockCodec<f32> for OpusMono {
    fn encode_block(mut self, block: &[f32]) -> (Self, Result<Vec<u8>, Error>) {
        let mut output = vec![0; MAX_PACKET_BYTES];
        let written = self
            .encoder
            .encode(block, SAMPLES_PER_CHANNEL, &mut output)
            .unwrap();
        output.truncate(written);
        (self, Ok(output))
    }
}

impl ChunkCodec<f32> for OpusMono {
    fn for_format(format: PcmFormat) -> Result<Self, Error> {
        let rate = format.sample_rate_hz();
        let frames = source_block_frames(rate);
        Ok(OpusMono {
            encoder: OpusEncoder::new(SAMPLE_RATE_HZ as i32, CHANNELS, OpusApplication::Audio)
                .unwrap(),
            resampler: MonoResampler::new(rate.get(), SAMPLE_RATE_HZ, frames),
        })
    }

    fn silence(&self) -> f32 {
        0.0
    }

    fn sample(&self, _: PcmEncoding, bytes: &[u8]) -> f32 {
        let sample = i16::from_le_bytes([bytes[0], bytes[1]]);
        f32::from(sample) / if sample < 0 { 32768.0 } else { 32767.0 }
    }

    fn resample(mut self, samples: &[f32]) -> (Self, Result<Vec<f32>, Error>) {
        let resampled = self.resampler.push(samples);
        (self, Ok(resampled))
    }

    fn resample_rest(mut self) -> (Self, Result<Vec<f32>, Error>) {
        let resampled = self.resampler.finish();
        (self, Ok(resampled))
    }
}

#[test]
fn opus_streaming_encoder_resamples_and_pads_final_packet() {
    let mut encoder = DynamicPcmEncoder::<f32, OpusMono>::new();
    let mut input = Vec::new();
    for _ in 0..240 {
        input.extend_from_slice(&1234_i16.to_le_bytes());
    }
    let chunk = PcmChunk::from_mono_bytes(24_000, PcmEncoding::S16Le, input).unwrap();
    let mut packets: Vec<Packet> = Vec::new();

    assert_eq!(encoder.push_chunk_to(&chunk, &mut packets).unwrap(), 0);
    assert_eq!(encoder.finish_to(&mut packets).unwrap(), 1);
    assert!(encoder.resampling_required());
    assert_eq!(packets[0].duration(), Duration::from_millis(20));
}

#[test]
fn opus_encoder_writes_to_caller_buffer() {
    let samples = vec![0.0_f32; STEREO_SAMPLES_PER_BLOCK];
    validate_block_samples(samples.len()).unwrap();
    let config = EncodeConfig::default();
    let mut encoder =
        OpusEncoder::new(SAMPLE_RATE_HZ as i32, CHANNELS, OpusApplication::Audio).unwrap();
    encoder.bitrate_bps = config.encoder_bitrate().unwrap();
    encoder.use_cbr = config.cbr;
    let mut output = Vec::with_capacity(MAX_PACKET_BYTES);

    output.resize(MAX_PACKET_BYTES, 0);
    validate_output_len(output.len()).unwrap();
    let written = encoder
        .encode(&samples, SAMPLES_PER_CHANNEL, &mut output)
        .unwrap();
    output.truncate(written);

    assert_eq!(written, output.len());
    assert!(!output.is_empty());
    assert!(output.len() <= MAX_PACKET_BYTES);
    assert!(output.capacity() >= MAX_PACKET_BYTES);
}
