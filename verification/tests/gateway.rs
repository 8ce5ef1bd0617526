//! Commands to and events from the voice gateway.

use std::collections::{HashMap, HashSet};

use cacophony::codecs::{payload_type, DiscordRtpCodecMap};
use cacophony::errors::{
    DaveError, DaveGatewayPayloadError, Error, InvalidInputError, ProtocolError,
    UnsupportedCodecError,
};
use cacophony::gateway::command::SelectProtocolData;
use cacophony::gateway::{
    handle_text_event, handle_voice_binary_event, identify_payload, replay_pending_voice_events,
    BinaryEvent, DaveInvalidCommitWelcomeCommand, DaveTransitionReadyCommand, DiscordId,
    GatewayCommand, GatewayEventEffects, GatewayHeartbeatAckState, GatewayReady,
    GatewayReadyStream, GatewayTextEvent, HeartbeatCommand, Opcode, PendingGatewayEvent,
    SelectProtocolCommand, SpeakingCommand, SpeakingFlags, SpeakingUpdate, UdpDiscoveryPacket,
};
use cacophony::media::TransportCryptoConfig;
use cacophony::secrets::SecretKey;
use cacophony::state::config::DAVE_PROTOCOL_VERSION;
use cacophony::state::{
    ConnectionCodecPreferences, ConnectionConfig, ConnectionInternalState, ConnectionOptions,
    ConnectionTuning, DaveInternalState, DaveMlsMessageIdentity, DaveMlsMessageKind,
    DavePendingMediaBucket, EncryptionMode, OfferedEncryptionMode, PendingDaveMlsMessage,
    SessionDescription, SessionDescriptionParts,
};
use cacophony::time::{Duration, Instant};
use cacophony::Codec;

const TEST_DISCORD_ID: u64 = 0xDEADBEEF;

fn test_connection_config() -> ConnectionConfig {
    ConnectionConfig {
        guild_id: 1,
        channel_id: 2,
        user_id: 3,
        session_id: "session".to_string(),
        token: "token".to_string(),
        endpoint: "127.0.0.1".to_string(),
    }
}

fn test_session_description() -> SessionDescription {
    SessionDescription::new(SessionDescriptionParts {
        mode: EncryptionMode::aead_aes256_gcm_rtpsize(),
        secret_key: SecretKey::new(vec![0; 32]),
        audio_codec: None,
        video_codec: None,
        dave_protocol_version: Some(1),
    })
    .unwrap()
}

fn test_state() -> ConnectionInternalState {
    let selected_mode = EncryptionMode::aead_aes256_gcm_rtpsize();
    let config = test_connection_config()
        .validate()
        .ok()
        .unwrap()
        .runtime_config();
    let session_description = test_session_description();
    let rtp_codecs =
        DiscordRtpCodecMap::new(&session_description, &config.options.codec_preferences).unwrap();
    ConnectionInternalState {
        config,
        heartbeat_interval_ms: 50,
        last_seq: None,
        ready: GatewayReady {
            ssrc: 42,
            ip: "127.0.0.1".to_string(),
            port: 5000,
            modes: vec![OfferedEncryptionMode::of(selected_mode)],
            heartbeat_interval: None,
            streams: Vec::new(),
        },
        discovery: UdpDiscoveryPacket {
            ssrc: 42,
            address: "127.0.0.1".to_string(),
            port: 5001,
        },
        selected_mode,
        session_description: Some(session_description),
        rtp_codecs: Some(rtp_codecs),
        connected_user_ids: HashSet::new(),
        ssrc_users: HashMap::new(),
        speaking: HashMap::new(),
        dave: DaveInternalState::default(),
        roster_authoritative: false,
        resumed: false,
    }
}

fn test_pending_mls(kind: DaveMlsMessageKind) -> PendingDaveMlsMessage {
    PendingDaveMlsMessage::new(
        DaveMlsMessageIdentity {
            kind,
            seq: 7,
            transition_id: 8,
        },
        vec![0xad],
    )
}

fn handle_test_voice_text_event(
    state: &mut ConnectionInternalState,
    event: GatewayTextEvent,
) -> Result<GatewayEventEffects, Error> {
    let mut heartbeat_ack = GatewayHeartbeatAckState::new();
    handle_text_event(state, &mut heartbeat_ack, event)
}

#[test]
fn default_config_uses_dave_protocol_version() {
    let config = test_connection_config().validate().ok().unwrap();

    assert_eq!(
        config.options().max_dave_protocol_version,
        Some(DAVE_PROTOCOL_VERSION)
    );
    assert_eq!(
        config.options().dave_send_media_ready_timeout,
        Duration::from_secs(20)
    );
    assert_eq!(config.options().dave_identity, None);
}

#[test]
fn standard_tuning_is_valid() {
    assert!(ConnectionTuning::default().validate().is_ok());
    assert!(ConnectionOptions::default().validate().is_ok());
}

#[test]
fn useless_tunings_are_refused() {
    let mut tuning = ConnectionTuning::default();
    tuning.rtp_reorder_ttl = Duration::zero();
    assert!(matches!(
        tuning.validate(),
        Err(Error::InvalidInput(
            InvalidInputError::ConnectionTuningDurationZero {
                field: "rtp_reorder_ttl",
            }
        ))
    ));
    let mut tuning = ConnectionTuning::default();
    tuning.media_queue_capacity = 0;
    assert!(matches!(
        tuning.validate(),
        Err(Error::InvalidInput(InvalidInputError::ConnectionTuningZero {
            field: "media_queue_capacity",
        }))
    ));
    let mut tuning = ConnectionTuning::default();
    tuning.udp_receive_buffer_bytes = 100;
    assert!(matches!(
        tuning.validate(),
        Err(Error::InvalidInput(
            InvalidInputError::ConnectionTuningTooSmall {
                field: "udp_receive_buffer_bytes",
                min: 65_535,
                actual: 100,
            }
        ))
    ));
}

#[test]
fn old_gateway_versions_are_refused() {
    let mut options = ConnectionOptions::default();
    options.gateway_version = 3;
    assert!(matches!(
        test_connection_config().with_options(options).validate(),
        Err(Error::InvalidInput(
            InvalidInputError::UnsupportedGatewayVersion { version: 3 }
        ))
    ));
}

#[test]
fn video_preferences_name_each_video_codec_once() {
    assert!(matches!(
        ConnectionCodecPreferences::with_video_codecs(vec![Codec::Opus]),
        Err(Error::InvalidInput(
            InvalidInputError::VideoCodecPreferenceNotVideo { codec: Codec::Opus }
        ))
    ));
    assert!(matches!(
        ConnectionCodecPreferences::with_video_codecs(vec![Codec::Vp8, Codec::Av1, Codec::Vp8]),
        Err(Error::InvalidInput(
            InvalidInputError::DuplicateVideoCodecPreference { codec: Codec::Vp8 }
        ))
    ));
    let audio_only = ConnectionCodecPreferences::audio_only();
    assert!(!audio_only.video_enabled());
    let video = ConnectionCodecPreferences::with_video_codecs(vec![Codec::Av1]).unwrap();
    assert!(video.video_enabled());
    assert_eq!(video.video_codecs(), &vec![Codec::Av1]);
}

#[test]
fn websocket_urls_name_the_gateway_version() {
    let config = test_connection_config().validate().ok().unwrap();
    assert_eq!(config.websocket_url, "wss://127.0.0.1/?v=8");
    let info = config.info();
    assert_eq!((info.guild_id, info.channel_id, info.user_id), (1, 2, 3));
    assert_eq!(info.connection_event().endpoint, "127.0.0.1");
}

#[test]
fn secrets_can_be_erased() {
    let mut config = test_connection_config().validate().ok().unwrap();
    assert_eq!(config.secrets.token.as_str(), "token");
    config.secrets.erase();
    assert_eq!(config.secrets.token.as_str(), "");
    assert_eq!(config.secrets.session_id.as_str(), "");
    let mut key = SecretKey::new(vec![1, 2, 3]);
    key.erase();
    assert!(key.as_slice().is_empty());
}

#[test]
fn identify_names_the_session() {
    let config = test_connection_config().validate().ok().unwrap();
    let payload: serde_json::Value = serde_json::from_str(&identify_payload(&config)).unwrap();
    assert_eq!(payload["op"], 0);
    assert_eq!(payload["d"]["server_id"], "1");
    assert_eq!(payload["d"]["user_id"], "3");
    assert_eq!(payload["d"]["session_id"], "session");
    assert_eq!(payload["d"]["token"], "token");
    assert_eq!(payload["d"]["max_dave_protocol_version"], 1);
}

#[test]
fn identify_quotes_the_secrets() {
    let mut config = test_connection_config();
    config.token = "a\"b\\c\n\u{e9}".to_string();
    let config = config.validate().ok().unwrap();
    let payload: serde_json::Value = serde_json::from_str(&identify_payload(&config)).unwrap();
    assert_eq!(payload["d"]["token"], "a\"b\\c\n\u{e9}");
}

#[test]
fn heartbeat_payload_includes_seq_ack() {
    let payload = GatewayCommand::Heartbeat(HeartbeatCommand {
        t: 123,
        seq_ack: Some(456),
    })
    .text_payload()
    .unwrap();
    assert_eq!(
        payload,
        format!(
            r#"{{"op":{},"d":{{"t":123,"seq_ack":456}}}}"#,
            Opcode::Heartbeat.code()
        )
    );
}

#[test]
fn heartbeat_payload_leaves_out_a_missing_seq_ack() {
    let payload = GatewayCommand::Heartbeat(HeartbeatCommand {
        t: 9,
        seq_ack: None,
    })
    .text_payload()
    .unwrap();
    let payload: serde_json::Value = serde_json::from_str(&payload).unwrap();
    assert_eq!(payload["d"]["t"], 9);
    assert!(payload["d"]["seq_ack"].is_null());
}

#[test]
fn discord_id_exposes_raw_snowflake() {
    assert_eq!(DiscordId::new(TEST_DISCORD_ID).get(), TEST_DISCORD_ID);
}

#[test]
fn dave_transition_ready_payload_contains_transition_id() {
    let payload = GatewayCommand::DaveProtocolTransitionReady(DaveTransitionReadyCommand {
        transition_id: 7,
    })
    .text_payload()
    .unwrap();
    assert_eq!(
        payload,
        format!(
            r#"{{"op":{},"d":{{"transition_id":7}}}}"#,
            Opcode::DaveTransitionReady.code()
        )
    );
}

#[test]
fn dave_transition_ready_payload_serializes_transition_zero() {
    let payload = GatewayCommand::DaveProtocolTransitionReady(DaveTransitionReadyCommand {
        transition_id: 0,
    })
    .text_payload()
    .unwrap();
    assert_eq!(
        payload,
        format!(
            r#"{{"op":{},"d":{{"transition_id":0}}}}"#,
            Opcode::DaveTransitionReady.code()
        )
    );
}

#[test]
fn invalid_commit_welcome_payload_contains_transition_id() {
    let payload =
        GatewayCommand::DaveMlsInvalidCommitWelcome(DaveInvalidCommitWelcomeCommand {
            transition_id: 9,
        })
        .text_payload()
        .unwrap();
    assert_eq!(payload, r#"{"op":31,"d":{"transition_id":9}}"#);
}

#[test]
fn speaking_payload_matches_discord_shape() {
    let payload = GatewayCommand::Speaking(SpeakingCommand {
        speaking: SpeakingFlags::microphone().bits(),
        delay: Some(0),
        ssrc: 42,
        user_id: None,
    })
    .text_payload()
    .unwrap();
    assert_eq!(
        payload,
        format!(
            r#"{{"op":{},"d":{{"speaking":1,"delay":0,"ssrc":42}}}}"#,
            Opcode::Speaking.code()
        )
    );
}

#[test]
fn select_protocol_codecs_are_top_level_discord_wire_metadata() {
    let codec_preferences =
        ConnectionCodecPreferences::with_video_codecs(vec![Codec::Av1, Codec::H264]).unwrap();
    let payload = GatewayCommand::SelectProtocol(SelectProtocolCommand::udp(
        "127.0.0.1".to_string(),
        5000,
        EncryptionMode::aead_aes256_gcm_rtpsize(),
        &codec_preferences,
    ))
    .text_payload()
    .unwrap();
    let payload: serde_json::Value = serde_json::from_str(&payload).unwrap();
    let data = &payload["d"];

    assert_eq!(data["protocol"], "udp");
    assert!(data["data"].get("codecs").is_none());
    assert_eq!(data["data"]["address"], "127.0.0.1");
    assert_eq!(data["data"]["port"], 5000);

    let codecs = data["codecs"].as_array().unwrap();
    assert_eq!(codecs[0]["name"], "opus");
    assert_eq!(codecs[0]["type"], "audio");
    assert_eq!(codecs[0]["priority"], 1_000);
    assert_eq!(codecs[1]["name"], "AV1");
    assert_eq!(codecs[1]["priority"], 2_000);
    assert_eq!(codecs[1]["payload_type"], payload_type(Codec::Av1).get());
    assert_eq!(codecs[1]["rtx_payload_type"], 102);
    assert_eq!(codecs[2]["name"], "H264");
    assert_eq!(codecs[2]["priority"], 3_000);
}

#[test]
fn ready_primary_video_stream_matches_identify_rid_and_keeps_rtx() {
    let ready = GatewayReady {
        ssrc: 42,
        ip: "127.0.0.1".to_string(),
        port: 5000,
        modes: vec![OfferedEncryptionMode::of(
            EncryptionMode::aead_aes256_gcm_rtpsize(),
        )],
        heartbeat_interval: None,
        streams: vec![
            GatewayReadyStream {
                kind: Some("video".to_string()),
                rid: Some("50".to_string()),
                ssrc: 50,
                rtx_ssrc: Some(51),
                quality: Some(50),
                active: Some(true),
            },
            GatewayReadyStream {
                kind: Some("video".to_string()),
                rid: Some("100".to_string()),
                ssrc: 100,
                rtx_ssrc: Some(101),
                quality: Some(100),
                active: Some(true),
            },
        ],
    };
    let stream = ready.primary_video_stream().unwrap();

    assert_eq!(stream.ssrc, 100);
    assert_eq!(stream.rtx_ssrc, Some(101));
}

#[test]
fn dave_mls_commands_do_not_have_json_fallback_payloads() {
    let error = GatewayCommand::DaveMlsKeyPackage {
        key_package: vec![0xde, 0xad],
    }
    .text_payload()
    .unwrap_err()
    .message();
    assert!(error.contains("binary websocket frames"));
}

#[test]
fn dave_mls_commands_travel_as_opcode_and_bytes() {
    let key_package = GatewayCommand::DaveMlsKeyPackage {
        key_package: vec![0xde, 0xad],
    };
    assert_eq!(key_package.binary_payload(), Some(vec![26, 0xde, 0xad]));
    let commit_welcome = GatewayCommand::DaveMlsCommitWelcome {
        commit: vec![1, 2],
        welcome: Some(vec![3]),
    };
    assert_eq!(commit_welcome.binary_payload(), Some(vec![28, 1, 2, 3]));
    let commit = GatewayCommand::DaveMlsCommitWelcome {
        commit: vec![1, 2],
        welcome: None,
    };
    assert_eq!(commit.binary_payload(), Some(vec![28, 1, 2]));
    assert_eq!(commit.opcode(), Opcode::DaveMlsCommitWelcome);
}

fn ready_with_modes(modes: Vec<OfferedEncryptionMode>) -> GatewayReady {
    GatewayReady {
        ssrc: 42,
        ip: "127.0.0.1".to_string(),
        port: 5000,
        modes,
        heartbeat_interval: None,
        streams: Vec::new(),
    }
}

#[test]
fn unsupported_voice_encryption_modes_fail_selection() {
    let options = ConnectionOptions::default().validate().unwrap();
    let error = ready_with_modes(vec![OfferedEncryptionMode::new("xsalsa20_poly1305_lite")])
        .select_encryption_mode(&options)
        .unwrap_err()
        .message();

    assert!(error.contains("required voice encryption mode"));
}

#[test]
fn offered_modes_are_chosen_in_order_of_preference() {
    let mut options = ConnectionOptions::default();
    options.required_mode = None;
    let options = options.validate().unwrap();
    let aes = EncryptionMode::aead_aes256_gcm_rtpsize();
    let xchacha = EncryptionMode::aead_xchacha20_poly1305_rtpsize();
    let both = ready_with_modes(vec![
        OfferedEncryptionMode::of(xchacha),
        OfferedEncryptionMode::of(aes),
    ]);
    assert_eq!(both.select_encryption_mode(&options).unwrap(), aes);
    let one = ready_with_modes(vec![OfferedEncryptionMode::of(xchacha)]);
    assert_eq!(one.select_encryption_mode(&options).unwrap(), xchacha);
    let none = ready_with_modes(Vec::new());
    assert!(matches!(
        none.select_encryption_mode(&options),
        Err(Error::Protocol(ProtocolError::ReadyMissingEncryptionModes))
    ));
    let unknown = ready_with_modes(vec![OfferedEncryptionMode::new("xsalsa20_poly1305")]);
    assert!(matches!(
        unknown.select_encryption_mode(&options),
        Err(Error::Protocol(ProtocolError::ReadyMissingSupportedEncryptionMode { modes }))
            if modes.len() == 1 && modes[0].as_str() == "xsalsa20_poly1305"
    ));
    let required = ConnectionOptions::default().validate().unwrap();
    assert!(matches!(
        one.select_encryption_mode(&required),
        Err(Error::Protocol(ProtocolError::RequiredEncryptionModeUnavailable {
            required_mode,
            ..
        })) if required_mode == aes
    ));
}

#[test]
fn mode_names_are_distinct() {
    for mode in EncryptionMode::all() {
        assert_eq!(OfferedEncryptionMode::of(mode).supported(), Some(mode));
        assert_eq!(OfferedEncryptionMode::new(mode.as_str()).as_str(), mode.as_str());
    }
    assert_eq!(OfferedEncryptionMode::new("xsalsa20_poly1305").supported(), None);
}

#[test]
fn flags_are_sets() {
    let both = SpeakingFlags::microphone() | SpeakingFlags::priority();
    assert_eq!(both.bits(), 5);
    assert!(both.contains(SpeakingFlags::priority()));
    assert!(!both.contains(SpeakingFlags::soundshare()));
    assert_eq!(both & SpeakingFlags::priority(), SpeakingFlags::priority());
    assert!(SpeakingFlags::none().is_empty());
    assert_eq!(SpeakingFlags::from_bits(2), SpeakingFlags::soundshare());
}

#[test]
fn opcodes_are_distinct() {
    for byte in 0..=255_u8 {
        match Opcode::from_byte(byte) {
            Some(opcode) => {
                assert_eq!(opcode.byte(), byte);
                assert_eq!(Opcode::from_code(opcode.code()), Some(opcode));
            }
            None => assert_eq!(Opcode::from_server_binary(byte), None),
        }
    }
    assert_eq!(Opcode::from_code(u64::MAX), None);
    assert_eq!(
        Opcode::DaveMlsWelcome.dave_mls_message_kind(),
        Some(DaveMlsMessageKind::Welcome)
    );
}

fn discovery_answer(ssrc: u32, address: &[u8], port: u16) -> Vec<u8> {
    let mut packet = vec![0, 2, 0, 70];
    packet.extend(ssrc.to_be_bytes());
    packet.extend(address);
    packet.resize(72, 0);
    packet.extend(port.to_be_bytes());
    packet
}

#[test]
fn discovery_answers_are_read() {
    let answer = UdpDiscoveryPacket::decode(&discovery_answer(42, b"203.0.113.9", 5001)).unwrap();
    assert_eq!(
        answer,
        UdpDiscoveryPacket {
            ssrc: 42,
            address: "203.0.113.9".to_string(),
            port: 5001,
        }
    );
    let request = UdpDiscoveryPacket::request(42);
    assert_eq!(request.len(), 74);
    assert_eq!(&request[..8], &[0, 1, 0, 70, 0, 0, 0, 42]);
    assert!(request[8..].iter().all(|byte| *byte == 0));
}

#[test]
fn malformed_discovery_answers_are_refused() {
    let answer = discovery_answer(42, b"203.0.113.9", 5001);
    assert!(matches!(
        UdpDiscoveryPacket::decode(&answer[..73]),
        Err(Error::Protocol(ProtocolError::UdpDiscoveryPacketTooShort {
            len: 73,
            min_len: 74,
        }))
    ));
    let mut wrong_type = answer.clone();
    wrong_type[1] = 1;
    assert!(matches!(
        UdpDiscoveryPacket::decode(&wrong_type),
        Err(Error::Protocol(
            ProtocolError::UnexpectedUdpDiscoveryPacketType {
                packet_type: 1,
                expected_packet_type: 2,
            }
        ))
    ));
    let mut wrong_len = answer;
    wrong_len[3] = 71;
    assert!(matches!(
        UdpDiscoveryPacket::decode(&wrong_len),
        Err(Error::Protocol(
            ProtocolError::UnexpectedUdpDiscoveryPacketLen {
                packet_len: 71,
                expected_packet_len: 70,
            }
        ))
    ));
    assert!(matches!(
        UdpDiscoveryPacket::decode(&discovery_answer(42, &[0xff, 0xfe], 1)),
        Err(Error::Protocol(ProtocolError::InvalidUdpDiscoveryIp {
            valid_up_to: 0,
            error_len: Some(1),
        }))
    ));
    for address in [
        &b"10.0\xff"[..],
        &b"10.0\xe2\x82"[..],
        &b"\xf0\x90\x41"[..],
        &b"a\xe0\x80b"[..],
    ] {
        let refusal = UdpDiscoveryPacket::decode(&discovery_answer(42, address, 1))
            .err()
            .unwrap();
        let expected = std::str::from_utf8(address).unwrap_err();
        assert_eq!(
            refusal.message(),
            format!("invalid voice discovery ip: {expected}")
        );
        assert!(matches!(
            refusal,
            Error::Protocol(ProtocolError::InvalidUdpDiscoveryIp {
                valid_up_to,
                error_len,
            }) if valid_up_to == expected.valid_up_to() && error_len == expected.error_len()
        ));
    }
}

#[test]
fn clients_connect_tracks_connected_user_roster() {
    let mut state = test_state();

    handle_test_voice_text_event(
        &mut state,
        GatewayTextEvent::ClientsConnect {
            user_ids: vec![DiscordId::new(TEST_DISCORD_ID)],
        },
    )
    .ok()
    .unwrap();

    assert!(state.ssrc_users.is_empty());
    assert!(state.connected_user_ids.contains(&TEST_DISCORD_ID));
    assert!(state.roster_authoritative);
}

#[test]
fn client_connect_maps_audio_ssrc_to_user() {
    let mut state = test_state();

    let effects = handle_test_voice_text_event(
        &mut state,
        GatewayTextEvent::ClientConnect {
            user_id: DiscordId::new(TEST_DISCORD_ID),
            audio_ssrc: Some(123),
            ssrc: None,
        },
    )
    .ok()
    .unwrap();

    assert_eq!(state.ssrc_users.get(&123), Some(&TEST_DISCORD_ID));
    assert!(state.connected_user_ids.contains(&TEST_DISCORD_ID));
    assert!(effects
        .retry_dave_pending_media
        .includes(DavePendingMediaBucket::MissingUser));
}

#[test]
fn client_disconnect_removes_user_from_media_roster_and_ssrcs() {
    let mut state = test_state();
    state.connected_user_ids.insert(TEST_DISCORD_ID);
    state.ssrc_users.insert(123, TEST_DISCORD_ID);
    state.ssrc_users.insert(456, 1);

    let effects = handle_test_voice_text_event(
        &mut state,
        GatewayTextEvent::ClientDisconnect {
            user_id: DiscordId::new(TEST_DISCORD_ID),
        },
    )
    .ok()
    .unwrap();

    assert!(!state.connected_user_ids.contains(&TEST_DISCORD_ID));
    assert!(!state.ssrc_users.contains_key(&123));
    assert_eq!(state.ssrc_users.get(&456), Some(&1));
    assert_eq!(effects.disconnected_user_ids, vec![TEST_DISCORD_ID]);
    assert_eq!(effects.removed_ssrcs, vec![123]);
}

#[test]
fn speaking_updates_name_the_user_of_a_source() {
    let mut state = test_state();
    let update = SpeakingUpdate {
        speaking: 1,
        ssrc: 77,
        user_id: Some(DiscordId::new(9)),
    };
    handle_test_voice_text_event(&mut state, GatewayTextEvent::Speaking(update))
        .ok()
        .unwrap();
    assert_eq!(state.user_of(77), Some(9));
    assert_eq!(state.speaking.get(&77), Some(&update));
}

#[test]
fn session_updates_need_a_session() {
    let mut state = test_state();
    state.session_description = None;
    let update = || GatewayTextEvent::SessionUpdate {
        audio_codec: Some("opus".to_string()),
        video_codec: Some("theora".to_string()),
    };
    assert!(matches!(
        handle_test_voice_text_event(&mut state, update()),
        Err(Error::Protocol(ProtocolError::MissingSessionDescription))
    ));
    let mut state = test_state();
    assert!(matches!(
        handle_test_voice_text_event(&mut state, update()),
        Err(Error::UnsupportedCodec(UnsupportedCodecError::UnsupportedVideoCodec { codec }))
            if codec == "theora"
    ));
}

#[test]
fn new_sessions_bring_their_key() {
    let mut state = test_state();
    let description = SessionDescription::new(SessionDescriptionParts {
        mode: EncryptionMode::aead_xchacha20_poly1305_rtpsize(),
        secret_key: SecretKey::new(vec![5; 32]),
        audio_codec: Some("opus".to_string()),
        video_codec: None,
        dave_protocol_version: Some(0),
    })
    .unwrap();
    let effects = handle_test_voice_text_event(
        &mut state,
        GatewayTextEvent::SessionDescription(description),
    )
    .ok()
    .unwrap();
    let expected =
        TransportCryptoConfig::new(EncryptionMode::aead_xchacha20_poly1305_rtpsize(), &[5; 32])
            .ok()
            .unwrap();
    assert!(effects.transport_crypto == Some(expected));
    assert!(effects.media_session_updated);
    assert_eq!(state.dave.protocol_version(), Some(0));
    assert_eq!(state.dave.active_send_protocol_version(), Some(0));
}

#[test]
fn heartbeats_are_acknowledged() {
    let mut state = test_state();
    let mut ack = GatewayHeartbeatAckState::new();
    let sent_at = Instant::from_nanos(5);
    ack.mark_sent(sent_at);
    assert!(ack.is_pending());
    assert!(ack.timed_out(Duration::from_millis(1), sent_at.plus(Duration::from_millis(1))));
    assert!(!ack.timed_out(Duration::from_millis(2), sent_at.plus(Duration::from_millis(1))));
    handle_text_event(&mut state, &mut ack, GatewayTextEvent::HeartbeatAck)
        .ok()
        .unwrap();
    assert!(!ack.is_pending());
}

#[test]
fn dave_execute_transition_from_transport_requests_plaintext_receive_grace() {
    let mut state = test_state();
    state.dave.prepare_transition(7, 1);

    let effects = handle_test_voice_text_event(
        &mut state,
        GatewayTextEvent::DaveExecuteTransition { transition_id: 7 },
    )
    .ok()
    .unwrap();

    assert!(effects.allow_plaintext_receive_grace);
    assert_eq!(state.dave.active_receive_protocol_version(), Some(1));
}

#[test]
fn dave_execute_transition_between_dave_protocols_does_not_request_plain_passthrough() {
    let mut state = test_state();
    state.dave.prepare_transition(6, 1);
    state.dave.execute_transition(6);
    state.dave.prepare_transition(7, 1);

    let effects = handle_test_voice_text_event(
        &mut state,
        GatewayTextEvent::DaveExecuteTransition { transition_id: 7 },
    )
    .ok()
    .unwrap();

    assert!(!effects.allow_plaintext_receive_grace);
    assert_eq!(state.dave.active_receive_protocol_version(), Some(1));
}

#[test]
fn dave_binary_parser_rejects_opcode_first_server_frames() {
    assert!(
        BinaryEvent::parse(&[Opcode::DaveMlsExternalSender.byte(), 0xde, 0xad, 0xbe, 0xef,])
            .is_none()
    );
}

#[test]
fn dave_binary_parser_accepts_seq_prefixed_server_frames() {
    let bytes = [0, 7, Opcode::DaveMlsExternalSender.byte(), 0xde, 0xad];
    let event = BinaryEvent::parse(&bytes).unwrap();
    assert_eq!(event.seq, 7);
    assert_eq!(event.opcode, Opcode::DaveMlsExternalSender);
    assert_eq!(event.payload, &[0xde, 0xad]);
}

#[test]
fn dave_binary_parser_rejects_client_only_opcodes_from_server() {
    assert!(BinaryEvent::parse(&[0, 7, Opcode::DaveMlsKeyPackage.byte(), 0xde, 0xad,]).is_none());
    assert!(
        BinaryEvent::parse(&[0, 7, Opcode::DaveMlsCommitWelcome.byte(), 0xde, 0xad,]).is_none()
    );
}

fn assert_dave_gateway_payload_too_short(error: Error, expected_opcode: u8, expected_len: usize) {
    let Error::Dave(DaveError::InvalidGatewayPayload(DaveGatewayPayloadError::PayloadTooShort {
        opcode,
        len,
        min_len,
    })) = error
    else {
        panic!("unexpected error: {error:?}");
    };

    assert_eq!(opcode, expected_opcode);
    assert_eq!(len, expected_len);
    assert_eq!(min_len, 2);
}

#[test]
fn short_dave_commit_transition_payload_errors() {
    let mut state = test_state();
    let error = handle_voice_binary_event(
        &mut state,
        &[0, 7, Opcode::DaveMlsAnnounceCommitTransition.byte(), 0xde],
    )
    .err()
    .unwrap();

    assert_dave_gateway_payload_too_short(error, Opcode::DaveMlsAnnounceCommitTransition.byte(), 1);
}

#[test]
fn short_dave_welcome_payload_errors() {
    let mut state = test_state();
    let error =
        handle_voice_binary_event(&mut state, &[0, 7, Opcode::DaveMlsWelcome.byte(), 0xde])
            .err()
            .unwrap();

    assert_dave_gateway_payload_too_short(error, Opcode::DaveMlsWelcome.byte(), 1);
}

#[test]
fn dave_commit_transition_payload_stores_message_identity() {
    let mut state = test_state();

    handle_voice_binary_event(
        &mut state,
        &[
            0,
            7,
            Opcode::DaveMlsAnnounceCommitTransition.byte(),
            0,
            8,
            0xad,
        ],
    )
    .ok()
    .unwrap();

    let commit = state.dave.pending_mls.commit().unwrap();
    assert_eq!(state.last_seq, Some(7));
    assert_eq!(commit.payload, [0xad]);
    assert_eq!(commit.identity.kind, DaveMlsMessageKind::Commit);
    assert_eq!(commit.identity.seq, 7);
    assert_eq!(commit.identity.transition_id, 8);
}

#[test]
fn dave_prepare_epoch_resets_epoch_without_transition_id() {
    let mut state = test_state();
    state.dave.prepare_transition(8, 1);
    state.dave.prepare_epoch(1, 2);
    state.dave.proposals.push(vec![0xde]);
    state
        .dave
        .pending_mls
        .set_message(test_pending_mls(DaveMlsMessageKind::Commit));
    state
        .dave
        .pending_mls
        .set_message(test_pending_mls(DaveMlsMessageKind::Welcome));

    handle_test_voice_text_event(
        &mut state,
        GatewayTextEvent::DavePrepareEpoch {
            protocol_version: 1,
            epoch: 1,
        },
    )
    .ok()
    .unwrap();

    assert_eq!(state.dave.protocol_version(), Some(1));
    assert_eq!(state.dave.transition_id(), Some(8));
    assert_eq!(state.dave.epoch(), Some(1));
    assert_eq!(state.dave.prepare_epoch_seq(), 2);
    assert!(state.dave.proposals.is_empty());
    assert!(state.dave.pending_mls.is_empty());
}

#[test]
fn dave_repeated_prepare_epoch_events_remain_distinct() {
    let mut state = test_state();

    for _ in [11, 12] {
        state.dave.proposals.push(vec![0xde]);
        state
            .dave
            .pending_mls
            .set_message(test_pending_mls(DaveMlsMessageKind::Commit));
        state
            .dave
            .pending_mls
            .set_message(test_pending_mls(DaveMlsMessageKind::Welcome));

        handle_test_voice_text_event(
            &mut state,
            GatewayTextEvent::DavePrepareEpoch {
                protocol_version: 1,
                epoch: 1,
            },
        )
        .ok()
        .unwrap();
    }

    assert_eq!(state.dave.protocol_version(), Some(1));
    assert_eq!(state.dave.epoch(), Some(1));
    assert_eq!(state.dave.prepare_epoch_seq(), 2);
    assert!(state.dave.proposals.is_empty());
    assert!(state.dave.pending_mls.is_empty());
}

#[test]
fn public_state_snapshots_keep_roster_maps_immutable() {
    let mut state = test_state();
    let before = state.public_state();

    state.connected_user_ids.insert(TEST_DISCORD_ID);
    state.ssrc_users.insert(123, TEST_DISCORD_ID);
    state.ready.ssrc = 777;

    let after = state.public_state();
    assert!(!before.connected_user_ids.contains(&TEST_DISCORD_ID));
    assert!(!before.ssrc_users.contains_key(&123));
    assert_eq!(before.local_ssrc, 42);
    assert!(after.connected_user_ids.contains(&TEST_DISCORD_ID));
    assert_eq!(after.ssrc_users.get(&123), Some(&TEST_DISCORD_ID));
    assert_eq!(after.local_ssrc, 777);
}

#[test]
fn state_updates_do_not_require_subscribers() {
    let mut state = test_state();
    handle_test_voice_text_event(&mut state, GatewayTextEvent::Resumed)
        .ok()
        .unwrap();
    assert!(state.resumed);
}

#[test]
fn kept_events_are_replayed_in_order() {
    let mut state = test_state();
    let mut clients_connected = Vec::new();
    replay_pending_voice_events(
        &mut state,
        vec![
            PendingGatewayEvent::Text {
                seq: Some(3),
                event: GatewayTextEvent::ClientsConnect {
                    user_ids: vec![DiscordId::new(9)],
                },
            },
            PendingGatewayEvent::Binary(vec![
                0,
                4,
                Opcode::DaveMlsExternalSender.byte(),
                0xaa,
            ]),
            PendingGatewayEvent::Text {
                seq: Some(5),
                event: GatewayTextEvent::ClientDisconnect {
                    user_id: DiscordId::new(9),
                },
            },
        ],
        &mut clients_connected,
    )
    .unwrap();
    assert_eq!(clients_connected, vec![1]);
    assert!(state.connected_user_ids.is_empty());
    assert_eq!(state.dave.external_sender, Some(vec![0xaa]));
    assert_eq!(state.last_seq, Some(5));
    let refusal = replay_pending_voice_events(
        &mut state,
        vec![
            PendingGatewayEvent::Text {
                seq: None,
                event: GatewayTextEvent::ClientsConnect {
                    user_ids: vec![DiscordId::new(10), DiscordId::new(11)],
                },
            },
            PendingGatewayEvent::Binary(vec![0, 6, Opcode::DaveMlsWelcome.byte(), 1]),
            PendingGatewayEvent::Text {
                seq: None,
                event: GatewayTextEvent::ClientsConnect {
                    user_ids: vec![DiscordId::new(12)],
                },
            },
        ],
        &mut clients_connected,
    )
    .unwrap_err();
    assert_eq!(clients_connected, vec![1, 2]);
    assert_dave_gateway_payload_too_short(refusal, Opcode::DaveMlsWelcome.byte(), 1);
}

#[test]
fn speaking_flags_are_put_together() {
    let mut flags = SpeakingFlags::default();
    assert_eq!(flags, SpeakingFlags::none());
    flags |= SpeakingFlags::microphone();
    flags |= SpeakingFlags::priority();
    assert_eq!(flags.bits(), 5);
    flags &= SpeakingFlags::priority();
    assert_eq!(flags, SpeakingFlags::priority());
}

#[test]
fn texts_are_escaped_in_commands() {
    let command = GatewayCommand::SelectProtocol(SelectProtocolCommand {
        data: SelectProtocolData {
            address: "a\"b\\c\n\u{8}\u{1f}\u{7f}\u{e9}/".to_string(),
            port: 1,
            mode: EncryptionMode::aead_aes256_gcm_rtpsize(),
        },
        codecs: Vec::new(),
    });
    let text = command.text_payload().unwrap();
    assert!(text.contains("\"address\":\"a\\\"b\\\\c\\n\\b\\u001f\u{7f}\u{e9}/\","));
}
