//! The words of the errors.

use cacophony::errors::{
    BackpressureError, ConnectionJoinError, DaveDecryptError, DaveError, DaveGatewayPayloadError,
    DaveProposalsPayloadError, DecryptError, Error, FrameDecryptError, InvalidInputError,
    OpusError, OpusOperation, PayloadKind, PcmError, ProtocolError, RtpError,
    TransportCryptoDirection, TransportCryptoError, UnsupportedCodecError,
};
use cacophony::observer::{ConnectStage, ReceiveDecodeErrorKind};
use cacophony::state::{EncryptionMode, OfferedEncryptionMode};
use cacophony::text::{append_signed, contains_text, decimal_text, same_text};
use cacophony::time::Duration;
use cacophony::{Codec, MediaType, RtpPayloadType};

#[test]
fn numbers_and_texts_are_written() {
    assert_eq!(decimal_text(0), "0");
    assert_eq!(decimal_text(u64::MAX), "18446744073709551615");
    let mut text = String::new();
    append_signed(&mut text, i64::MIN);
    append_signed(&mut text, 7);
    assert_eq!(text, "-92233720368547758087");
    assert!(same_text("voice", "voice"));
    assert!(!same_text("voice", "Voice"));
    assert!(contains_text("a voice packet", "voice"));
    assert!(!contains_text("a voice packet", "video"));
}

#[test]
fn pcm_errors_have_words() {
    let said = |error: PcmError| error.message();
    assert_eq!(
        said(PcmError::SampleAlignment {
            encoding: "s16le",
            byte_len: 3,
            sample_bytes: 2,
        }),
        "s16le PCM byte length 3 is not aligned to 2-byte samples"
    );
    assert_eq!(
        said(PcmError::ChannelAlignment {
            channels: 2,
            samples: 3,
        }),
        "PCM sample count 3 is not aligned to 2 channels"
    );
    assert_eq!(
        said(PcmError::UnsupportedEncoding("x".to_string())),
        "PCM encoding `x` is not supported"
    );
    assert_eq!(
        said(PcmError::ResamplerChunkFramesZero),
        "PCM resampler chunk frame count must be greater than zero"
    );
    assert_eq!(
        said(PcmError::Resampler("bad ratio".to_string())),
        "PCM resampler error: bad ratio"
    );
}

#[test]
fn input_errors_have_words() {
    assert_eq!(
        InvalidInputError::ConnectionTuningTooSmall {
            field: "udp_receive_buffer_bytes",
            min: 65_535,
            actual: 100,
        }
        .message(),
        "connection tuning field udp_receive_buffer_bytes must be at least 65535, got 100"
    );
    assert_eq!(
        InvalidInputError::DuplicateVideoCodecPreference { codec: Codec::Av1 }.message(),
        format!(
            "{} appears more than once in Discord video codec preferences",
            Codec::Av1.as_str()
        )
    );
    assert_eq!(
        InvalidInputError::OpusOutputBufferTooSmall {
            min_len: 4096,
            len: 1,
        }
        .message(),
        "Opus output buffer must be at least 4096 bytes, got 1"
    );
}

#[test]
fn protocol_errors_have_words() {
    assert_eq!(
        ProtocolError::RequiredEncryptionModeUnavailable {
            required_mode: EncryptionMode::aead_aes256_gcm_rtpsize(),
            modes: Vec::new(),
        }
        .message(),
        "required voice encryption mode aead_aes256_gcm_rtpsize was not offered: []"
    );
    let offered = ProtocolError::ReadyMissingSupportedEncryptionMode {
        modes: vec![
            OfferedEncryptionMode::new("one"),
            OfferedEncryptionMode::new("t\"wo"),
        ],
    };
    assert_eq!(
        offered.message(),
        r#"voice ready payload did not include a supported encryption mode: ["one", "t\"wo"]"#
    );
    assert_eq!(
        ProtocolError::WebSocketAddressConnectTimeout {
            address: "127.0.0.1:443".to_string(),
            duration: Duration::from_millis(1_500),
        }
        .message(),
        "voice websocket connect to 127.0.0.1:443 timed out after 1.5s"
    );
    assert_eq!(
        ProtocolError::WebSocketAllAddressesFailed {
            host: "host".to_string(),
            port: 443,
            address_count: 2,
            errors: vec!["one".to_string(), "two".to_string()],
        }
        .message(),
        "voice websocket connect to host:443 failed across 2 resolved addresses: one; two"
    );
    assert_eq!(
        ProtocolError::MediaCodecNotNegotiated {
            codec: Codec::Opus,
            negotiated_codec: Some(Codec::Vp8),
        }
        .message(),
        format!(
            "Discord voice session did not negotiate {} transmission; negotiated Some(Vp8)",
            Codec::Opus.as_str()
        )
    );
    assert_eq!(
        ProtocolError::InvalidDiscordVoiceUdpIp {
            remote_ip: "x\"y".to_string(),
            source: "invalid IP address syntax".to_string(),
        }
        .message(),
        r#"invalid Discord voice UDP IP "x\"y": invalid IP address syntax"#
    );
}

#[test]
fn opus_errors_have_words() {
    assert_eq!(
        OpusError::OperationFailed {
            operation: OpusOperation::EncodeFrame,
            reason: "why",
        }
        .message(),
        "failed to encode Opus frame: why"
    );
    assert_eq!(
        OpusError::UnsupportedDiscordPacketDuration {
            expected_samples_per_channel: 960,
            actual_samples_per_channel: 480,
        }
        .message(),
        "Discord Opus packet must contain 960 samples per channel, got 480"
    );
    assert_eq!(
        OpusError::OggOpusUnsupportedMappingFamily { mapping_family: 1 }.message(),
        "Ogg Opus mapping family must be 0, got 1"
    );
}

#[test]
fn codec_errors_have_words() {
    assert_eq!(
        UnsupportedCodecError::UnsupportedAudioCodec {
            codec: "aac".to_string(),
        }
        .message(),
        r#"unsupported Discord voice audio codec "aac"; only Opus is supported"#
    );
    assert_eq!(
        UnsupportedCodecError::UnsupportedRtpPayloadType {
            payload_type: RtpPayloadType::new_const(3),
            expected_payload_types: vec![
                RtpPayloadType::new_const(120),
                RtpPayloadType::new_const(101),
            ],
        }
        .message(),
        "unsupported Discord voice RTP payload type 3; expected one of \
         [RtpPayloadType(120), RtpPayloadType(101)]"
    );
}

#[test]
fn packet_errors_have_words() {
    assert_eq!(
        RtpError::PacketTooShort { len: 3 }.message(),
        "voice RTP packet is shorter than 12 bytes: 3"
    );
    assert_eq!(
        RtpError::InvalidPadding {
            padding: 9,
            payload_len: 2,
        }
        .message(),
        "voice RTP packet has invalid padding length 9 for payload length 2"
    );
    assert_eq!(
        RtpError::MalformedPayload {
            codec: Codec::Vp8,
            reason: "short",
        }
        .message(),
        format!("malformed {} RTP payload: short", Codec::Vp8.as_str())
    );
    assert_eq!(
        TransportCryptoError::InvalidSecretKeyLen { len: 31 }.message(),
        "voice secret_key must be 32 bytes, got 31"
    );
    assert_eq!(TransportCryptoDirection::Receive.message(), "receive");
}

#[test]
fn dave_errors_have_words() {
    assert_eq!(
        DaveError::InvalidGatewayPayload(DaveGatewayPayloadError::PayloadTooShort {
            opcode: 29,
            len: 1,
            min_len: 2,
        })
        .message(),
        "invalid DAVE gateway payload: opcode 29 payload is 1 bytes, expected at least 2"
    );
    assert_eq!(
        DaveError::InvalidProposalsPayload(DaveProposalsPayloadError::InvalidOperation {
            operation: 2,
        })
        .message(),
        "invalid DAVE proposals payload: invalid proposals operation byte 2"
    );
    let recovery = DaveError::recover_invalid_group(
        "process commit",
        DaveError::ProcessCommit("one".to_string()),
        Error::Dave(DaveError::CreateSession("two".to_string())),
    );
    assert_eq!(
        recovery.message(),
        Error::Dave(DaveError::RecoverInvalidGroup {
            operation: "process commit",
            original: Box::new(DaveError::ProcessCommit("one".to_string())),
            recovery: Box::new(Error::Dave(DaveError::CreateSession("two".to_string()))),
        })
        .message()
    );
    assert!(recovery.message().contains(
        "failed to recover invalid DAVE group after process commit error \
         (failed to process DAVE commit: one): "
    ));
    assert!(matches!(
        DaveError::recover_invalid_group(
            "process commit",
            DaveError::ProcessCommit("one".to_string()),
            Error::Closed,
        ),
        Error::Closed
    ));
    assert_eq!(
        DaveDecryptError::MissingUser.message(),
        "DAVE frame decrypt requires mapped user_id"
    );
}

#[test]
fn errors_have_words() {
    assert_eq!(
        BackpressureError::ActiveOpusPlayout.message(),
        "voice connection already has an active Opus playout"
    );
    assert_eq!(
        ConnectionJoinError::JoinTaskClosed.message(),
        "voice join task is closed"
    );
    let whole = Error::Rtp(RtpError::PacketTooShort { len: 3 });
    assert!(whole
        .message()
        .contains("voice RTP packet is shorter than 12 bytes: 3"));
    let too_large = Error::PayloadTooLarge {
        kind: PayloadKind::Frame,
        len: 2,
        max_len: 1,
    }
    .message();
    assert!(too_large.contains('2') && too_large.contains('1'));
    let late = Error::Timeout {
        stage: Some(ConnectStage::Hello),
        duration: Duration::from_secs(10),
    };
    assert!(late.message().contains("10s"));
    assert!(late.message().contains(ConnectStage::Hello.label()));
}

#[test]
fn errors_of_received_media_have_kinds() {
    assert_eq!(
        Error::Rtp(RtpError::PacketTooShort { len: 3 }).receive_decode_kind(),
        Some(ReceiveDecodeErrorKind::MalformedRtp)
    );
    assert_eq!(Error::Closed.receive_decode_kind(), None);
    let kind = |error: FrameDecryptError| {
        DaveDecryptError::from_source(DecryptError::Frame(error)).receive_decode_kind()
    };
    assert_eq!(
        kind(FrameDecryptError::PassthroughDisabled),
        ReceiveDecodeErrorKind::DaveUnencryptedWhenPassthroughDisabled
    );
    assert_eq!(
        kind(FrameDecryptError::ReplayedNonce),
        ReceiveDecodeErrorKind::DaveOtherDecryptError
    );
    assert_eq!(
        kind(FrameDecryptError::NoValidCryptor {
            media_type: MediaType::Video,
            encrypted_size: 1,
            plaintext_capacity: 1,
            manager_count: 1,
        }),
        ReceiveDecodeErrorKind::DaveNoValidCryptor
    );
    assert_eq!(
        DaveDecryptError::from_source(DecryptError::NoDecryptorForUser { user_id: 7 })
            .receive_decode_kind(),
        ReceiveDecodeErrorKind::DaveNoDecryptorForUser
    );
}
