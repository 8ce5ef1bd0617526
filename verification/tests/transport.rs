//! RTP headers, transport encryption, nonces, outbound packets and endpoints.

use aes_gcm::aead::{AeadInPlace, KeyInit};
use aes_gcm::{Aes256Gcm, Nonce as AesNonce};
use chacha20poly1305::{XChaCha20Poly1305, XNonce};

use cacophony::errors::{Error, PayloadKind, ProtocolError, RtpError, TransportCryptoError};
use cacophony::media::crypto::{OutboundEncryptParams, AEAD_TAG_LEN, RTPSIZE_NONCE_LEN};
use cacophony::media::endpoint::{websocket_attempt_delay, RequestUri};
use cacophony::media::header::RtpFixedHeader;
use cacophony::media::{
    ordered_voice_socket_addrs, timestamp_increment, AddressAttempts, HeartbeatNonce, IpAddress,
    OutboundCodecBinding, OutboundRtpState, RawUdpPacket, RawUdpPacketInfo, RtpHeader,
    RtpHeaderBuilder, RtpHeaderFields, RtpSizeNonceSuffix, SocketAddress, TransportCrypto,
    TransportCryptoConfig, VoiceEndpoint, VoiceUdpRemote,
};
use cacophony::observer::RtcpHeader;
use cacophony::state::EncryptionMode;
use cacophony::time::Duration;
use cacophony::{Codec, MediaType, RtpPayloadType};

fn opus_payload_type() -> RtpPayloadType {
    RtpPayloadType::new_const(120)
}

fn crypto(mode: EncryptionMode, key: &[u8]) -> TransportCrypto {
    let config = TransportCryptoConfig::new(mode, key).ok().unwrap();
    TransportCrypto::from_config(&config).ok().unwrap()
}

fn build_rtp_header(seq: u16, timestamp: u32, ssrc: u32, payload_type: RtpPayloadType) -> Vec<u8> {
    let mut packet = Vec::new();
    RtpHeaderBuilder::new(RtpHeaderFields {
        seq,
        timestamp,
        ssrc,
        payload_type,
    })
    .write_to(&mut packet);
    packet
}

fn encrypt_transport_payload(
    params: OutboundEncryptParams,
    frame: &[u8],
    mode: EncryptionMode,
    key: &[u8],
) -> Vec<u8> {
    let mut packet = Vec::new();
    crypto(mode, key)
        .encrypt_payload(params, frame, &mut packet)
        .unwrap();
    packet
}

fn decrypt_transport_payload(
    packet: &[u8],
    rtp: &RtpHeader,
    mode: EncryptionMode,
    key: &[u8],
) -> Result<Vec<u8>, Error> {
    let mut output = Vec::new();
    crypto(mode, key).decrypt_payload_into(packet, rtp, &mut output)?;
    Ok(output)
}

fn sealed(
    mode: EncryptionMode,
    key: &[u8; 32],
    nonce_suffix: [u8; 4],
    header: Vec<u8>,
    body: Vec<u8>,
) -> Vec<u8> {
    let mut bytes = header;
    let aad = bytes.clone();
    let mut encrypted = body;
    if mode == EncryptionMode::aead_aes256_gcm_rtpsize() {
        let cipher = Aes256Gcm::new_from_slice(key).unwrap();
        let mut nonce = [0_u8; 12];
        nonce[..RTPSIZE_NONCE_LEN].copy_from_slice(&nonce_suffix);
        let tag = cipher
            .encrypt_in_place_detached(AesNonce::from_slice(&nonce), &aad, &mut encrypted)
            .unwrap();
        encrypted.extend_from_slice(&tag);
    } else {
        let cipher = XChaCha20Poly1305::new_from_slice(key).unwrap();
        let mut nonce = [0_u8; 24];
        nonce[..RTPSIZE_NONCE_LEN].copy_from_slice(&nonce_suffix);
        let tag = cipher
            .encrypt_in_place_detached(XNonce::from_slice(&nonce), &aad, &mut encrypted)
            .unwrap();
        encrypted.extend_from_slice(&tag);
    }
    bytes.extend_from_slice(&encrypted);
    bytes.extend_from_slice(&nonce_suffix);
    bytes
}

fn packet_with_extension(
    mode: EncryptionMode,
    key: &[u8; 32],
    nonce_suffix: [u8; 4],
    opus: &[u8],
) -> Vec<u8> {
    let mut header = build_rtp_header(10, 20, 30, opus_payload_type());
    header[0] |= 0x10;
    header.extend_from_slice(&[0xbe, 0xde, 0x00, 0x01]);
    let mut body = Vec::from([0xca, 0xfe, 0xba, 0xbe]);
    body.extend_from_slice(opus);
    sealed(mode, key, nonce_suffix, header, body)
}

fn packet_with_padding(
    mode: EncryptionMode,
    key: &[u8; 32],
    nonce_suffix: [u8; 4],
    opus: &[u8],
) -> Vec<u8> {
    let mut header = build_rtp_header(10, 20, 30, opus_payload_type());
    header[0] |= 0x20;
    let mut body = opus.to_vec();
    body.extend_from_slice(&[0, 0, 3]);
    sealed(mode, key, nonce_suffix, header, body)
}

fn params(nonce_suffix: RtpSizeNonceSuffix) -> OutboundEncryptParams {
    OutboundEncryptParams {
        header: RtpHeaderFields {
            seq: 10,
            timestamp: 20,
            ssrc: 30,
            payload_type: opus_payload_type(),
        },
        marker: false,
        nonce_suffix,
    }
}

fn transport_crypto_round_trips(mode: EncryptionMode) {
    let opus = b"opus-frame";
    let nonce_suffix = RtpSizeNonceSuffix::from_be_bytes([0xde, 0xad, 0xbe, 0xef]);
    let packet = encrypt_transport_payload(params(nonce_suffix), opus, mode, &[7; 32]);

    assert_eq!(
        packet.len(),
        12 + opus.len() + AEAD_TAG_LEN + RTPSIZE_NONCE_LEN
    );
    assert_eq!(
        &packet[packet.len() - RTPSIZE_NONCE_LEN..],
        &nonce_suffix.to_be_bytes()
    );
    assert_ne!(&packet[12..12 + opus.len()], opus);

    let rtp = RtpHeader::parse(&packet).unwrap();
    assert_eq!(
        decrypt_transport_payload(&packet, &rtp, mode, &[7; 32]).unwrap(),
        opus
    );
}

fn transport_crypto_decrypts_rtp_extensions(mode: EncryptionMode) {
    let opus = b"opus-frame-with-extension";
    let key = [7; 32];
    let packet = packet_with_extension(mode, &key, [0xde, 0xad, 0xbe, 0xef], opus);
    let rtp = RtpHeader::parse(&packet).unwrap();

    assert!(rtp.extension);
    assert_eq!(rtp.encrypted_body_offset, 16);
    assert_eq!(rtp.header_len, 20);
    assert_eq!(
        decrypt_transport_payload(&packet, &rtp, mode, &key).unwrap(),
        opus
    );
}

fn transport_crypto_strips_rtp_padding(mode: EncryptionMode) {
    let opus = b"opus-frame-with-padding";
    let key = [7; 32];
    let packet = packet_with_padding(mode, &key, [0xde, 0xad, 0xbe, 0xef], opus);
    let rtp = RtpHeader::parse(&packet).unwrap();

    assert!(rtp.padding);
    assert_eq!(
        decrypt_transport_payload(&packet, &rtp, mode, &key).unwrap(),
        opus
    );
}

#[test]
fn transport_crypto_round_trips_aes_gcm_rtpsize_packets() {
    transport_crypto_round_trips(EncryptionMode::aead_aes256_gcm_rtpsize());
}

#[test]
fn transport_crypto_round_trips_xchacha_rtpsize_packets() {
    transport_crypto_round_trips(EncryptionMode::aead_xchacha20_poly1305_rtpsize());
}

#[test]
fn transport_crypto_decrypts_packets_with_discord_rtp_extensions() {
    transport_crypto_decrypts_rtp_extensions(EncryptionMode::aead_aes256_gcm_rtpsize());
    transport_crypto_decrypts_rtp_extensions(EncryptionMode::aead_xchacha20_poly1305_rtpsize());
}

#[test]
fn transport_crypto_strips_rtp_padding_after_decrypt() {
    transport_crypto_strips_rtp_padding(EncryptionMode::aead_aes256_gcm_rtpsize());
    transport_crypto_strips_rtp_padding(EncryptionMode::aead_xchacha20_poly1305_rtpsize());
}

#[test]
fn sealed_packets_are_what_the_ciphers_make() {
    let suffix = [1, 2, 3, 4];
    for mode in EncryptionMode::all() {
        let packet = encrypt_transport_payload(
            params(RtpSizeNonceSuffix::from_be_bytes(suffix)),
            b"frame",
            mode,
            &[9; 32],
        );
        let header = build_rtp_header(10, 20, 30, opus_payload_type());
        assert_eq!(packet, sealed(mode, &[9; 32], suffix, header, b"frame".to_vec()));
    }
}

#[test]
fn tampered_packets_are_refused() {
    let suffix = RtpSizeNonceSuffix::from_be_bytes([1, 2, 3, 4]);
    for (mode, refusal) in [
        (
            EncryptionMode::aead_aes256_gcm_rtpsize(),
            TransportCryptoError::AesGcmDecryptFailed,
        ),
        (
            EncryptionMode::aead_xchacha20_poly1305_rtpsize(),
            TransportCryptoError::XChaCha20Poly1305DecryptFailed,
        ),
    ] {
        let mut packet = encrypt_transport_payload(params(suffix), b"frame", mode, &[9; 32]);
        packet[13] ^= 1;
        let rtp = RtpHeader::parse(&packet).unwrap();
        let error = decrypt_transport_payload(&packet, &rtp, mode, &[9; 32]).unwrap_err();
        assert!(matches!(error, Error::TransportCrypto(found) if found == refusal));
    }
}

#[test]
fn short_packets_hold_no_nonce() {
    let mode = EncryptionMode::aead_aes256_gcm_rtpsize();
    let packet = build_rtp_header(1, 2, 3, opus_payload_type());
    let rtp = RtpHeader::parse(&packet).unwrap();
    let error = decrypt_transport_payload(&packet, &rtp, mode, &[9; 32]).unwrap_err();
    assert!(matches!(
        error,
        Error::TransportCrypto(TransportCryptoError::MissingRtpSizeNonce {
            packet_len: 12,
            ..
        })
    ));
}

#[test]
fn secret_keys_have_32_bytes() {
    for mode in EncryptionMode::all() {
        let refusal = TransportCryptoConfig::new(mode, &[0; 31]).err().unwrap();
        assert!(matches!(
            refusal,
            Error::TransportCrypto(TransportCryptoError::InvalidSecretKeyLen { len: 31 })
        ));
        assert!(TransportCryptoConfig::new(mode, &[0; 32]).is_ok());
    }
}

#[test]
fn padding_must_fit_the_payload() {
    let mode = EncryptionMode::aead_aes256_gcm_rtpsize();
    let mut header = build_rtp_header(10, 20, 30, opus_payload_type());
    header[0] |= 0x20;
    let packet = sealed(mode, &[7; 32], [0; 4], header.clone(), vec![1, 9]);
    let rtp = RtpHeader::parse(&packet).unwrap();
    assert!(matches!(
        decrypt_transport_payload(&packet, &rtp, mode, &[7; 32]),
        Err(Error::Rtp(RtpError::InvalidPadding {
            padding: 9,
            payload_len: 2,
        }))
    ));
    let packet = sealed(mode, &[7; 32], [0; 4], header, Vec::new());
    let rtp = RtpHeader::parse(&packet).unwrap();
    assert!(matches!(
        decrypt_transport_payload(&packet, &rtp, mode, &[7; 32]),
        Err(Error::Rtp(RtpError::EmptyPaddedPayload))
    ));
}

#[test]
fn raw_udp_packet_parses_rtcp_header() {
    let packet = RawUdpPacket::from_bytes(vec![0x81, 201, 0x00, 0x07, 0xde, 0xad, 0xbe, 0xef]);

    assert!(packet.is_rtcp());
    assert_eq!(
        packet.rtcp_header(),
        Some(RtcpHeader {
            version: 2,
            padding: false,
            report_count: 1,
            packet_type: 201,
            length_words: 7,
            ssrc: Some(0xdeadbeef),
        })
    );
}

#[test]
fn raw_packets_tell_rtp_from_rtcp() {
    let header = build_rtp_header(7, 960, 42, opus_payload_type());
    let info = RawUdpPacketInfo::from_bytes(&header);
    assert!(!info.is_rtcp());
    assert_eq!(info.version, Some(2));
    assert_eq!(info.payload_type, Some(opus_payload_type()));
    assert_eq!(info.seq, Some(7));
    assert_eq!(info.timestamp, Some(960));
    assert_eq!(info.ssrc, Some(42));
    assert_eq!(info.rtcp_header(&header), None);
    assert_eq!(info.into_raw_packet(&header).bytes, header);
    assert_eq!(RawUdpPacketInfo::from_bytes(&[]).version, None);
}

#[test]
fn rtp_parser_rejects_unsupported_version() {
    let mut packet = [0_u8; 12];
    packet[0] = 1 << 6;

    assert_eq!(
        RtpHeader::parse(&packet),
        Err(RtpError::UnsupportedVersion { version: 1 })
    );
}

#[test]
fn truncated_headers_are_refused() {
    assert_eq!(
        RtpHeader::parse(&[0x80; 11]),
        Err(RtpError::PacketTooShort { len: 11 })
    );
    assert_eq!(RtpFixedHeader::parse(&[0x80; 11]), None);
    let mut packet = build_rtp_header(1, 2, 3, opus_payload_type());
    packet[0] |= 0x02;
    assert_eq!(
        RtpHeader::parse(&packet),
        Err(RtpError::TruncatedCsrcList {
            len: 12,
            expected_header_len: 20,
        })
    );
    let mut packet = build_rtp_header(1, 2, 3, opus_payload_type());
    packet[0] |= 0x10;
    assert_eq!(
        RtpHeader::parse(&packet),
        Err(RtpError::TruncatedExtensionHeader {
            len: 12,
            expected_header_len: 16,
        })
    );
    packet.extend_from_slice(&[0xbe, 0xde, 0, 1]);
    assert_eq!(
        RtpHeader::parse(&packet),
        Err(RtpError::TruncatedExtensionPayload {
            len: 16,
            expected_header_len: 20,
        })
    );
}

#[test]
fn headers_round_trip() {
    let fields = RtpHeaderFields {
        seq: 0xabcd,
        timestamp: 0x0102_0304,
        ssrc: 0xdead_beef,
        payload_type: opus_payload_type(),
    };
    let mut packet = vec![9, 9];
    packet.clear();
    let written = RtpHeaderBuilder::new(fields).marker(true).write_to(&mut packet);
    assert_eq!(
        packet,
        vec![0x80, 0x80 | 120, 0xab, 0xcd, 1, 2, 3, 4, 0xde, 0xad, 0xbe, 0xef]
    );
    packet.extend_from_slice(b"rest");
    assert_eq!(RtpHeader::parse(&packet), Ok(written));
    assert_eq!((written.seq, written.timestamp, written.ssrc), (0xabcd, 0x0102_0304, 0xdead_beef));
    assert!(written.marker);
}

#[test]
fn nonce_bytes_round_trip() {
    let mut suffix = RtpSizeNonceSuffix::from_be_bytes([0, 0, 1, 0xff]);
    suffix.increment();
    assert_eq!(suffix.to_be_bytes(), [0, 0, 2, 0]);
    let mut last = RtpSizeNonceSuffix::from_be_bytes([0xff; 4]);
    last.increment();
    assert_eq!(last.to_be_bytes(), [0; 4]);
}

#[test]
fn randomness_starts_the_nonces() {
    let first = RtpSizeNonceSuffix::initial().unwrap();
    assert!((0..8).any(|_| RtpSizeNonceSuffix::initial().unwrap() != first));
    assert_eq!(
        RtpSizeNonceSuffix::from_random(Some([1, 2, 3, 4])).unwrap(),
        RtpSizeNonceSuffix::from_be_bytes([1, 2, 3, 4])
    );
    assert!(matches!(
        RtpSizeNonceSuffix::from_random(None),
        Err(Error::TransportCrypto(TransportCryptoError::NonceRandomnessUnavailable))
    ));
    assert!(matches!(
        HeartbeatNonce::from_random(None),
        Err(Error::TransportCrypto(TransportCryptoError::NonceRandomnessUnavailable))
    ));
    assert!(HeartbeatNonce::initial().is_ok());
}

#[test]
fn heartbeat_numbers_stay_safe_integers() {
    let mut nonce = HeartbeatNonce::from_random(Some([0xff; 8])).unwrap();
    assert_eq!(nonce.next(), 2048);
    let last = 0x1f_ffff_ffff_fffe_u64;
    let mut nonce = HeartbeatNonce::from_random(Some(last.to_be_bytes())).unwrap();
    assert_eq!(nonce.next(), 0);
    assert_eq!(nonce.next(), 1);
}

#[test]
fn outbound_packets_count_up() {
    let crypto = crypto(EncryptionMode::aead_aes256_gcm_rtpsize(), &[7; 32]);
    let binding = OutboundCodecBinding::new(Codec::Opus, 42);
    assert_eq!(binding.sample_rate(), 48_000);
    assert_eq!(binding.media_type(), MediaType::Audio);
    let mut state = OutboundRtpState::starting_at(
        binding,
        RtpSizeNonceSuffix::from_be_bytes([0, 0, 0, 9]),
    );
    let mut packet = Vec::new();
    let first = state
        .build_packet(b"one", true, Duration::from_millis(20), &crypto, &mut packet)
        .unwrap();
    assert_eq!(first.packet_bytes, packet.len());
    assert_eq!(first.payload_bytes, 3);
    assert_eq!(&packet[packet.len() - 4..], &[0, 0, 0, 9]);
    let second = state
        .build_packet(b"two", true, Duration::from_millis(20), &crypto, &mut packet)
        .unwrap();
    assert_eq!(second.rtp.seq, first.rtp.seq.wrapping_add(1));
    assert_eq!(second.rtp.timestamp, first.rtp.timestamp.wrapping_add(960));
    assert_eq!(second.rtp.ssrc, 42);
    assert_eq!(second.nonce_suffix.to_be_bytes(), [0, 0, 0, 10]);
    let rtp = RtpHeader::parse(&packet).unwrap();
    assert_eq!(crypto.open_payload(&packet, &rtp).unwrap(), b"two");
}

#[test]
fn fresh_outbound_streams_draw_their_nonce() {
    let binding = OutboundCodecBinding::new(Codec::Vp8, 7);
    let state = OutboundRtpState::new(binding).unwrap();
    assert_eq!(state.codec(), Codec::Vp8);
    assert_eq!(state.ssrc(), 7);
    assert!((0..8).any(|_| OutboundRtpState::new(binding).unwrap() != state));
}

#[test]
fn timestamps_follow_the_clock_of_the_codec() {
    assert_eq!(timestamp_increment(48_000, Duration::from_millis(20)), 960);
    assert_eq!(timestamp_increment(90_000, Duration::from_millis(33)), 2_970);
    assert_eq!(timestamp_increment(90_000, Duration::zero()), 1);
    assert_eq!(timestamp_increment(u32::MAX, Duration::from_secs(5)), u32::MAX);
}

#[test]
fn raw_packet_length_limits_hold() {
    let raw = RawUdpPacket::from_bytes(vec![1, 2, 3]);
    assert_eq!(
        raw.ensure_len_at_most(3, PayloadKind::RtpPacket).unwrap().bytes,
        vec![1, 2, 3]
    );
}

#[test]
fn voice_endpoint_host_port_uses_discord_endpoint_port() {
    assert_eq!(
        VoiceEndpoint::new("wss://c-syd05-e6e612f0.discord.media:2053/?v=8")
            .host_port()
            .unwrap(),
        ("c-syd05-e6e612f0.discord.media".to_string(), 2053)
    );
}

#[test]
fn voice_endpoint_host_port_defaults_wss_to_443() {
    assert_eq!(
        VoiceEndpoint::new("wss://example.discord.media/?v=8")
            .host_port()
            .unwrap(),
        ("example.discord.media".to_string(), 443)
    );
}

#[test]
fn endpoints_need_a_host_and_a_known_scheme() {
    assert!(matches!(
        VoiceEndpoint::new("not a url").host_port(),
        Err(Error::WebSocket(_))
    ));
    let uri = |host: Option<&str>, port, scheme: Option<&str>| RequestUri {
        host: host.map(str::to_string),
        port,
        scheme: scheme.map(str::to_string),
    };
    assert_eq!(
        uri(Some("host"), None, Some("ws")).host_port().unwrap(),
        ("host".to_string(), 80)
    );
    assert!(matches!(
        uri(None, Some(1), Some("wss")).host_port(),
        Err(Error::Protocol(ProtocolError::WebSocketUrlMissingHost))
    ));
    assert!(matches!(
        uri(Some("host"), None, Some("ftp")).host_port(),
        Err(Error::Protocol(ProtocolError::WebSocketUrlMissingUsableScheme))
    ));
}

fn v4(octets: [u8; 4], port: u16) -> SocketAddress {
    SocketAddress {
        ip: IpAddress::V4(u32::from_be_bytes(octets)),
        port,
        flowinfo: 0,
        scope_id: 0,
    }
}

fn v6(bits: u128, port: u16) -> SocketAddress {
    SocketAddress {
        ip: IpAddress::V6(bits),
        port,
        flowinfo: 0,
        scope_id: 0,
    }
}

#[test]
fn ordered_voice_socket_addrs_deduplicates_and_prefers_ipv4() {
    // 2606:4700::1 and 2606:4700::2.
    let first = 0x2606_4700_0000_0000_0000_0000_0000_0001;
    let second = 0x2606_4700_0000_0000_0000_0000_0000_0002;
    let addresses = ordered_voice_socket_addrs(vec![
        v6(first, 2053),
        v4([162, 159, 128, 235], 2053),
        v4([162, 159, 128, 235], 2053),
        v6(second, 2053),
    ]);
    assert_eq!(
        addresses,
        vec![
            v4([162, 159, 128, 235], 2053),
            v6(first, 2053),
            v6(second, 2053),
        ]
    );
}

#[test]
fn udp_bind_addr_matches_remote_ip_family() {
    assert_eq!(
        VoiceUdpRemote::new(v4([127, 0, 0, 1], 1).ip).bind_addr(),
        v4([0, 0, 0, 0], 0)
    );
    assert_eq!(
        VoiceUdpRemote::new(v6(1, 1).ip).bind_addr(),
        v6(0, 0)
    );
}

#[test]
fn attempts_are_staggered() {
    assert_eq!(websocket_attempt_delay(0), Duration::zero());
    assert_eq!(websocket_attempt_delay(3), Duration::from_millis(375));
}

#[test]
fn every_address_is_tried_before_the_gateway_is_given_up() {
    assert!(matches!(
        AddressAttempts::new("voice.example".to_string(), 443, vec![])
            .err()
            .unwrap(),
        Error::Protocol(ProtocolError::WebSocketEndpointNoAddresses { port: 443, .. })
    ));
    let address = |ip| SocketAddress {
        ip,
        port: 443,
        flowinfo: 0,
        scope_id: 0,
    };
    let mut tries = AddressAttempts::new(
        "voice.example".to_string(),
        443,
        vec![address(IpAddress::V6(1)), address(IpAddress::V4(2))],
    )
    .ok()
    .unwrap();
    assert_eq!(
        tries.addresses,
        vec![address(IpAddress::V4(2)), address(IpAddress::V6(1))]
    );
    assert_eq!(AddressAttempts::time_limit(), Duration::from_secs(5));
    assert_eq!(
        AddressAttempts::outcome("a".to_string(), Some(Ok(7))).unwrap(),
        7
    );
    let late: Result<u8, Error> = AddressAttempts::outcome("192.0.2.1:443".to_string(), None);
    tries.failed(&late.unwrap_err());
    tries.failed(&Error::Closed);
    assert_eq!(tries.errors[1], "voice connection is closed");
    match tries.all_failed() {
        Error::Protocol(ProtocolError::WebSocketAllAddressesFailed {
            host,
            port,
            address_count,
            errors,
        }) => {
            assert_eq!((host.as_str(), port, address_count), ("voice.example", 443, 2));
            assert!(errors[0].contains("192.0.2.1:443"));
            assert_eq!(errors.len(), 2);
        }
        _ => panic!("another error"),
    }
}
