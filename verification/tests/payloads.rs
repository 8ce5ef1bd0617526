//! Packetization of encoded frames and the wire tables of the codecs.

use cacophony::annex_b::AnnexBNalus;
use cacophony::codecs::{
    audio_codec, codec_for_payload_type, descriptor, payload_type, video_codec, video_codecs,
    DiscordRtpCodecMap,
};
use cacophony::errors::{RtpError, UnsupportedCodecError};
use cacophony::leb128::DecodedUleb128;
use cacophony::rtp_payload::depacketize::{ParsedRtpPayload, RtpPayloadBoundary};
use cacophony::rtp_payload::{RtpPayloadPacketizer, RTP_MEDIA_PAYLOAD_MAX_BYTES};
use cacophony::secrets::SecretKey;
use cacophony::state::{
    ConnectionCodecPreferences, EncryptionMode, SessionDescription, SessionDescriptionParts,
};
use cacophony::{Codec, MediaType, RtpPayloadType};

const LONG_START_CODE: [u8; 4] = [0, 0, 0, 1];

fn packetized(codec: Codec, frame: &[u8]) -> Vec<(Vec<u8>, bool)> {
    let mut packetizer = RtpPayloadPacketizer::new(codec, frame).unwrap();
    let mut payload = Vec::new();
    let mut payloads = Vec::new();
    while let Some(marker) = packetizer.next(&mut payload).unwrap() {
        payloads.push((payload.clone(), marker));
    }
    payloads
}

fn assembled(codec: Codec, payloads: &[(Vec<u8>, bool)]) -> Vec<u8> {
    let mut frame = Vec::new();
    let mut has_partial = false;
    for (payload, marker) in payloads {
        let payload = ParsedRtpPayload::parse(codec, payload, *marker, has_partial).unwrap();
        let boundary = payload.boundary();
        if boundary.starts_frame {
            frame.clear();
        }
        payload.append_depacketized(&mut frame).unwrap();
        has_partial = !boundary.completes_frame;
    }
    frame
}

fn assert_packetization_round_trip(codec: Codec, frame: &[u8]) {
    let payloads = packetized(codec, frame);
    assert!(payloads.len() > 1);
    assert_eq!(assembled(codec, &payloads), frame);
}

#[test]
fn vp8_packetization_round_trips_large_frame() {
    assert_packetization_round_trip(Codec::Vp8, &vec![0x80; RTP_MEDIA_PAYLOAD_MAX_BYTES * 2]);
}

#[test]
fn vp9_packetization_round_trips_large_frame() {
    assert_packetization_round_trip(Codec::Vp9, &vec![0x80; RTP_MEDIA_PAYLOAD_MAX_BYTES * 2]);
}

#[test]
fn h264_packetization_round_trips_annex_b_frame() {
    let mut frame = LONG_START_CODE.to_vec();
    frame.push(0x65);
    frame.extend(vec![0xaa; RTP_MEDIA_PAYLOAD_MAX_BYTES * 2]);
    assert_packetization_round_trip(Codec::H264, &frame);
}

#[test]
fn h265_packetization_round_trips_annex_b_frame() {
    let mut frame = LONG_START_CODE.to_vec();
    frame.extend_from_slice(&[0x26, 0x01]);
    frame.extend(vec![0xaa; RTP_MEDIA_PAYLOAD_MAX_BYTES * 2]);
    assert_packetization_round_trip(Codec::H265, &frame);
}

#[test]
fn av1_packetization_round_trips_obu_frame() {
    let mut frame = vec![0x10];
    frame.extend(vec![0xaa; RTP_MEDIA_PAYLOAD_MAX_BYTES * 2]);
    assert_packetization_round_trip(Codec::Av1, &frame);
}

#[test]
fn av1_packetization_round_trips_multiple_obus_in_one_temporal_unit() {
    let mut frame = vec![0x12, 16];
    frame.extend([0xaa; 16]);
    frame.extend([0x12, 16]);
    frame.extend([0xbb; 16]);
    assert_packetization_round_trip(Codec::Av1, &frame);
}

#[test]
fn av1_payload_lengths_reject_overflowing_leb128() {
    let payload = [
        &[0x00][..],
        &[0xff, 0xff, 0xff, 0xff, 0xff, 0xff, 0xff, 0xff, 0xff, 2][..],
    ]
    .concat();
    assert!(matches!(
        ParsedRtpPayload::parse(Codec::Av1, &payload, true, false)
            .and_then(|payload| payload.append_depacketized(&mut Vec::new())),
        Err(RtpError::MalformedPayload {
            reason: "invalid AV1 OBU length",
            ..
        })
    ));
}

#[test]
fn opus_frames_travel_in_one_payload() {
    let payloads = packetized(Codec::Opus, &[1, 2, 3]);
    assert_eq!(payloads, vec![(vec![1, 2, 3], false)]);
    assert_eq!(assembled(Codec::Opus, &payloads), vec![1, 2, 3]);
}

#[test]
fn too_large_opus_frames_are_refused() {
    let frame = vec![0; RTP_MEDIA_PAYLOAD_MAX_BYTES + 1];
    let mut payload = Vec::new();
    let refusal = RtpPayloadPacketizer::new(Codec::Opus, &frame)
        .and_then(|mut packetizer| packetizer.next(&mut payload));
    assert_eq!(
        refusal,
        Err(RtpError::PayloadTooLarge {
            codec: Codec::Opus,
            payload_len: RTP_MEDIA_PAYLOAD_MAX_BYTES + 1,
            max_payload_len: RTP_MEDIA_PAYLOAD_MAX_BYTES,
        })
    );
}

#[test]
fn every_payload_fits() {
    for codec in [Codec::Vp8, Codec::Vp9, Codec::Av1] {
        let frame = vec![0x10; RTP_MEDIA_PAYLOAD_MAX_BYTES * 5 + 7];
        let payloads = packetized(codec, &frame);
        let last = payloads.len() - 1;
        for (index, (payload, marker)) in payloads.iter().enumerate() {
            assert!(!payload.is_empty());
            assert!(payload.len() <= RTP_MEDIA_PAYLOAD_MAX_BYTES);
            assert_eq!(*marker, index == last);
        }
        assert_eq!(assembled(codec, &payloads), frame);
    }
}

#[test]
fn vp8_fragments_mark_the_start_of_the_frame() {
    let frame = vec![0x80; RTP_MEDIA_PAYLOAD_MAX_BYTES];
    let payloads = packetized(Codec::Vp8, &frame);
    assert_eq!(payloads.len(), 2);
    assert_eq!(payloads[0].0.len(), RTP_MEDIA_PAYLOAD_MAX_BYTES);
    assert_eq!(payloads[0].0[0], 0x10);
    assert_eq!(payloads[1].0, vec![0x00, 0x80]);
}

#[test]
fn several_units_of_one_frame_come_back() {
    let mut frame = LONG_START_CODE.to_vec();
    frame.extend([0x67, 1, 2]);
    frame.extend(LONG_START_CODE);
    frame.extend([0x68, 3]);
    frame.extend(LONG_START_CODE);
    frame.push(0x65);
    frame.extend(vec![0xaa; 100]);
    let payloads = packetized(Codec::H264, &frame);
    assert_eq!(payloads.len(), 3);
    assert_eq!(payloads[0], (vec![0x67, 1, 2], false));
    assert_eq!(payloads[1], (vec![0x68, 3], false));
    assert!(payloads[2].1);
    let mut units = Vec::new();
    for (payload, marker) in &payloads {
        ParsedRtpPayload::parse(Codec::H264, payload, *marker, true)
            .unwrap()
            .append_depacketized(&mut units)
            .unwrap();
    }
    assert_eq!(units, frame);
}

#[test]
fn frames_without_units_are_refused() {
    assert!(matches!(
        RtpPayloadPacketizer::new(Codec::H264, &[1, 2, 3]),
        Err(RtpError::MalformedPayload {
            codec: Codec::H264,
            ..
        })
    ));
}

#[test]
fn units_are_found_after_short_and_long_start_codes() {
    let bytes = [0, 0, 1, 0x67, 9, 0, 0, 0, 1, 0x68, 0, 0, 1, 0x65];
    let mut units = AnnexBNalus::new(&bytes);
    assert!(!units.is_empty());
    assert_eq!(units.next(), Some(&[0x67, 9][..]));
    assert_eq!(units.next(), Some(&[0x68][..]));
    assert_eq!(units.next(), Some(&[0x65][..]));
    assert_eq!(units.next(), None);
}

#[test]
fn truncated_payloads_are_refused() {
    for codec in [Codec::Vp8, Codec::Vp9, Codec::H264, Codec::H265, Codec::Av1] {
        assert!(matches!(
            ParsedRtpPayload::parse(codec, &[], true, false),
            Err(RtpError::MalformedPayload { .. })
        ));
    }
}

#[test]
fn payload_boundaries_follow_the_descriptors() {
    let boundary = |codec, payload: &[u8], marker| {
        ParsedRtpPayload::parse(codec, payload, marker, false)
            .unwrap()
            .boundary()
    };
    assert_eq!(
        boundary(Codec::Opus, &[0xf8], false),
        RtpPayloadBoundary {
            starts_frame: true,
            completes_frame: true,
        }
    );
    assert_eq!(
        boundary(Codec::Vp8, &[0x10, 1], false),
        RtpPayloadBoundary {
            starts_frame: true,
            completes_frame: false,
        }
    );
    assert_eq!(
        boundary(Codec::Vp8, &[0x00, 1], true),
        RtpPayloadBoundary {
            starts_frame: false,
            completes_frame: true,
        }
    );
}

#[test]
fn uleb128_numbers_are_read() {
    assert_eq!(
        DecodedUleb128::read(&[0xac, 0x02, 9]),
        Some(DecodedUleb128 {
            value: 300,
            encoded_len: 2,
        })
    );
    assert_eq!(DecodedUleb128::read(&[0x80]), None);
    assert_eq!(DecodedUleb128::read(&[]), None);
    let mut largest = vec![0xff; 9];
    largest.push(1);
    assert_eq!(
        DecodedUleb128::read(&largest),
        Some(DecodedUleb128 {
            value: u64::MAX,
            encoded_len: 10,
        })
    );
    let mut too_large = vec![0xff; 9];
    too_large.push(2);
    assert_eq!(DecodedUleb128::read(&too_large), None);
}

fn session(audio: Option<&str>, video: Option<&str>) -> SessionDescription {
    SessionDescription::new(SessionDescriptionParts {
        mode: EncryptionMode::aead_aes256_gcm_rtpsize(),
        secret_key: SecretKey::new(vec![0; 32]),
        audio_codec: audio.map(str::to_string),
        video_codec: video.map(str::to_string),
        dave_protocol_version: Some(1),
    })
    .unwrap()
}

#[test]
fn rtp_codec_detection_accepts_negotiated_audio_and_video_payloads() {
    let opus = RtpPayloadType::new_const(120);
    let codec_preferences =
        ConnectionCodecPreferences::with_video_codecs(vec![Codec::Av1, Codec::H264]).unwrap();
    let codec_map = DiscordRtpCodecMap::new(&session(None, None), &codec_preferences).unwrap();

    assert_eq!(codec_map.detect(opus).unwrap(), Codec::Opus);

    assert!(matches!(
        DiscordRtpCodecMap::new(&session(Some("aac"), None), &codec_preferences),
        Err(UnsupportedCodecError::UnsupportedAudioCodec { codec }) if codec == "aac"
    ));

    let codec_map =
        DiscordRtpCodecMap::new(&session(Some("opus"), Some("AV1")), &codec_preferences).unwrap();
    assert_eq!(
        codec_map.detect(payload_type(Codec::Av1)).unwrap(),
        Codec::Av1
    );
    assert_eq!(
        codec_map.detect(payload_type(Codec::H264)).unwrap(),
        Codec::H264
    );

    assert!(matches!(
        codec_map.detect(payload_type(Codec::Vp8)),
        Err(UnsupportedCodecError::UnexpectedRtpPayloadCodec {
            payload_type: found,
            codec: Codec::Vp8,
            expected_payload_types,
        }) if found == payload_type(Codec::Vp8)
            && expected_payload_types == vec![
                opus,
                payload_type(Codec::Av1),
                payload_type(Codec::H264),
            ]
    ));
}

#[test]
fn unknown_video_codecs_and_payload_types_are_refused() {
    let codec_preferences =
        ConnectionCodecPreferences::with_video_codecs(vec![Codec::Vp8]).unwrap();
    assert!(matches!(
        DiscordRtpCodecMap::new(&session(None, Some("theora")), &codec_preferences),
        Err(UnsupportedCodecError::UnsupportedVideoCodec { codec }) if codec == "theora"
    ));
    let map = DiscordRtpCodecMap::new(&session(None, None), &codec_preferences).unwrap();
    assert!(matches!(
        map.detect(RtpPayloadType::new_const(3)),
        Err(UnsupportedCodecError::UnsupportedRtpPayloadType { payload_type, .. })
            if payload_type.get() == 3
    ));
}

#[test]
fn wire_names_find_their_codecs() {
    assert_eq!(audio_codec("OPUS"), Some(Codec::Opus));
    assert_eq!(audio_codec("AV1"), None);
    for codec in video_codecs() {
        let wire_name = descriptor(codec).wire_name;
        assert_eq!(video_codec(wire_name), Some(codec));
        assert_eq!(video_codec(&wire_name.to_lowercase()), Some(codec));
        assert_eq!(descriptor(codec).media_type(), MediaType::Video);
    }
    assert_eq!(video_codec("opus"), None);
}

#[test]
fn payload_numbers_are_distinct() {
    assert_eq!(payload_type(Codec::Opus).get(), 120);
    for codec in [
        Codec::Opus,
        Codec::Vp8,
        Codec::Vp9,
        Codec::H264,
        Codec::H265,
        Codec::Av1,
    ] {
        assert_eq!(codec_for_payload_type(payload_type(codec)), Some(codec));
        if let Some(rtx) = descriptor(codec).rtx_payload_type {
            assert_eq!(codec_for_payload_type(rtx), None);
        }
    }
}

#[test]
fn marker_bytes_round_trip() {
    for value in 0..128_u8 {
        let number = RtpPayloadType::new(value).unwrap();
        assert_eq!(RtpPayloadType::from_marker_byte(number.marker_byte(true)), number);
        assert_eq!(number.marker_byte(false), value);
        assert_eq!(number.marker_byte(true), value | 0x80);
    }
    assert_eq!(RtpPayloadType::new(128), None);
    assert_eq!(RtpPayloadType::new_const(120).describe(), "120");
}
