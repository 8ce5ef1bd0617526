//! Setting a connection up and driving it.

use cacophony::connection::connect::{
    stage_duration, stage_timeout, AwaitingHello, SetupMessage, SetupStep,
};
use cacophony::connection::driver::{
    ClosedCommand, CommandOutcome, ConnectionCommand, ConnectionDriver, DaveReadiness,
    GatewayMessage,
};
use cacophony::connection::handle::{
    command_queued, ensure_max_len, ensure_open, frame_in_time, media_queued, Queued,
};
use cacophony::connection::heartbeat::{heartbeat_ack_timeout, Heartbeat};
use cacophony::connection::playout::{PlayoutAction, PlayoutCommand};
use cacophony::connection::turns::{FrameStep, ServeStep};
use cacophony::connection::{
    negotiated_video_media, LowLevelReceiveKind, MediaStep, ReceiveReports, SendPipeline,
};
use cacophony::errors::{
    BackpressureError, Error, InvalidInputError, PayloadKind, ProtocolError, RtpError,
    TransportCryptoError, UnsupportedCodecError,
};
use cacophony::gateway::{
    DiscordId, GatewayCommand, GatewayReady, GatewayReadyStream, GatewayTextEvent, Opcode,
    SpeakingFlags,
};
use cacophony::media::{
    HeartbeatNonce, NoRawPackets, OutboundPacket, ReceivedFrame, RtpHeader, RtpSizeNonceSuffix,
    TransportCrypto,
};
use cacophony::observer::{ConnectStage, DavePendingMediaReason, WebSocketCloseFrame};
use cacophony::opus::discord::Packet;
use cacophony::secrets::SecretKey;
use cacophony::state::{
    ConnectionCodecPreferences, ConnectionConfig, ConnectionInternalState, ConnectionOptions,
    EncryptionMode, OfferedEncryptionMode, PendingMediaFrame, SessionDescription,
    SessionDescriptionParts,
};
use cacophony::time::{Duration, Instant};
use cacophony::{Codec, MediaType, RtpPayloadType};

fn at(millis: u64) -> Instant {
    Instant::from_nanos(1_000_000_000).plus(Duration::from_millis(millis))
}

fn description(version: Option<u16>, video: Option<&str>) -> SessionDescription {
    SessionDescription::new(SessionDescriptionParts {
        mode: EncryptionMode::aead_aes256_gcm_rtpsize(),
        secret_key: SecretKey::new(vec![7; 32]),
        audio_codec: Some("opus".to_string()),
        video_codec: video.map(str::to_string),
        dave_protocol_version: version,
    })
    .unwrap()
}

fn ready() -> GatewayReady {
    GatewayReady {
        ssrc: 42,
        ip: "127.0.0.1".to_string(),
        port: 5000,
        modes: vec![OfferedEncryptionMode::of(
            EncryptionMode::aead_aes256_gcm_rtpsize(),
        )],
        heartbeat_interval: None,
        streams: vec![GatewayReadyStream {
            kind: Some("video".to_string()),
            rid: Some("100".to_string()),
            ssrc: 100,
            rtx_ssrc: Some(101),
            quality: Some(100),
            active: Some(true),
        }],
    }
}

fn discovery_answer() -> Vec<u8> {
    let mut packet = vec![0, 2, 0, 70, 0, 0, 0, 42];
    packet.extend(b"203.0.113.9");
    packet.resize(72, 0);
    packet.extend(5001_u16.to_be_bytes());
    packet
}

fn text(opcode: Opcode, seq: Option<i64>) -> SetupMessage {
    SetupMessage::Text {
        opcode: opcode.code(),
        seq,
    }
}

fn connected(version: Option<u16>, video: Option<&str>) -> ConnectionInternalState {
    let mut options = ConnectionOptions::default();
    if video.is_some() {
        options.codec_preferences =
            ConnectionCodecPreferences::with_video_codecs(vec![Codec::Vp8]).unwrap();
    }
    let config = ConnectionConfig {
        guild_id: 1,
        channel_id: 2,
        user_id: 3,
        session_id: "session".to_string(),
        token: "token".to_string(),
        endpoint: "127.0.0.1".to_string(),
    }
    .with_options(options)
    .validate()
    .ok()
    .unwrap();
    let mut hello = AwaitingHello::new(config);
    assert_eq!(
        hello.message(text(Opcode::Hello, Some(1))).unwrap(),
        SetupStep::Take
    );
    let (mut awaiting, identify) = hello.greeted(41_250);
    assert!(identify.contains("\"session\""));
    assert_eq!(
        awaiting.message(text(Opcode::Speaking, Some(2))).unwrap(),
        SetupStep::Skip
    );
    assert_eq!(
        awaiting.message(text(Opcode::Ready, None)).unwrap(),
        SetupStep::Take
    );
    let (discovery, request) = awaiting.readied(ready());
    assert_eq!(request.len(), 74);
    let (mut session, select) = discovery.discovered(&discovery_answer()).ok().unwrap();
    assert!(matches!(select, GatewayCommand::SelectProtocol(_)));
    assert_eq!(
        session.message(text(Opcode::ClientsConnect, Some(5))).unwrap(),
        SetupStep::Keep
    );
    assert_eq!(session.message(SetupMessage::Binary).unwrap(), SetupStep::Keep);
    assert_eq!(session.message(SetupMessage::Other).unwrap(), SetupStep::Skip);
    assert_eq!(
        session
            .message(text(Opcode::SessionDescription, None))
            .unwrap(),
        SetupStep::Take
    );
    session
        .described(description(version, video))
        .ok()
        .unwrap()
}

fn driver(version: Option<u16>) -> ConnectionDriver<NoRawPackets, &'static str> {
    let nonce = HeartbeatNonce::from_random(Some([0; 8])).unwrap();
    ConnectionDriver::new(connected(version, None), nonce)
        .ok()
        .unwrap()
}

const NOT_READY: DaveReadiness = DaveReadiness {
    session_ready: false,
    send_ready: false,
};

#[test]
fn the_setup_ends_in_a_connection() {
    let state = connected(Some(0), None);
    assert_eq!(state.heartbeat_interval_ms, 41_250);
    assert_eq!(state.last_seq, Some(5));
    assert_eq!(state.discovery.address, "203.0.113.9");
    assert_eq!(state.discovery.port, 5001);
    assert!(state.connected_user_ids.contains(&3));
    assert_eq!(state.dave.active_send_protocol_version(), Some(0));
    assert!(!state.roster_authoritative);
}

#[test]
fn transport_connections_stay_plain_until_a_transition_is_executed() {
    let mut state = connected(Some(0), None);
    state.dave.prepare_transition(7, 1);
    assert!(!state.dave.send_requires_dave());
    state.dave.execute_transition(7);
    assert!(state.dave.send_requires_dave());
}

#[test]
fn broken_setups_are_told() {
    let config = ConnectionConfig {
        guild_id: 1,
        channel_id: 2,
        user_id: 3,
        session_id: "session".to_string(),
        token: "token".to_string(),
        endpoint: "127.0.0.1".to_string(),
    }
    .validate()
    .ok()
    .unwrap();
    let mut hello = AwaitingHello::new(config);
    assert!(matches!(
        hello.message(SetupMessage::Ended),
        Err(Error::Closed)
    ));
    assert!(matches!(
        hello.message(SetupMessage::Failed("reset".to_string())),
        Err(Error::WebSocket(words)) if words == "reset"
    ));
    let (awaiting, _) = hello.greeted(1);
    let (discovery, _) = awaiting.readied(ready());
    assert!(matches!(
        discovery.discovered(&[]),
        Err(Error::Protocol(ProtocolError::UdpDiscoveryPacketTooShort {
            len: 0,
            min_len: 74,
        }))
    ));
}

#[test]
fn stages_have_their_time() {
    assert_eq!(
        stage_duration(ConnectStage::WebSocketConnect),
        Duration::from_secs(15)
    );
    assert_eq!(
        stage_duration(ConnectStage::UdpDiscovery),
        Duration::from_secs(5)
    );
    assert!(matches!(
        stage_timeout::<u8>(ConnectStage::Ready, None),
        Err(Error::Timeout {
            stage: Some(ConnectStage::Ready),
            duration,
        }) if duration == Duration::from_secs(10)
    ));
    assert_eq!(stage_timeout(ConnectStage::Ready, Some(Ok(7))).unwrap(), 7);
    assert!(matches!(
        stage_timeout::<u8>(ConnectStage::Ready, Some(Err(Error::Closed))),
        Err(Error::Closed)
    ));
}

#[test]
fn heartbeats_wait_for_their_answer() {
    assert_eq!(heartbeat_ack_timeout(100), Duration::from_secs(1));
    assert_eq!(heartbeat_ack_timeout(41_250), Duration::from_millis(82_500));
    assert_eq!(
        heartbeat_ack_timeout(100_000_000_000_000),
        Duration::from_secs(200_000_000_000)
    );
    let nonce = HeartbeatNonce::from_random(Some([0; 8])).unwrap();
    let mut heartbeat = Heartbeat::new(nonce, 1_000);
    let command = heartbeat.tick(at(0), Some(9)).unwrap().unwrap();
    assert_eq!(
        command.text_payload().unwrap(),
        r#"{"op":3,"d":{"t":1,"seq_ack":9}}"#
    );
    heartbeat.sent(at(0));
    assert_eq!(heartbeat.tick(at(1_999), None).unwrap(), None);
    assert!(matches!(
        heartbeat.tick(at(2_000), None),
        Err(Error::Protocol(ProtocolError::HeartbeatAckTimeout))
    ));
    heartbeat.ack.acknowledge();
    assert!(heartbeat.tick(at(2_000), None).unwrap().is_some());
}

#[test]
fn plain_media_is_ready_without_a_session() {
    let plain = driver(Some(0));
    let status = plain.current_dave_media_status(NOT_READY);
    assert!(!status.requires_dave);
    assert!(status.media_ready);
    assert!(!plain.media_gate(NOT_READY).requires_dave);
    let encrypted = driver(Some(1));
    let status = encrypted.current_dave_media_status(NOT_READY);
    assert!(status.requires_dave);
    assert!(!status.media_ready);
    let gate = encrypted.media_gate(NOT_READY);
    assert!(gate.requires_dave);
    assert!(!gate.media_ready);
    assert_eq!(gate.timeout, Duration::from_secs(20));
}

#[test]
fn commands_are_answered() {
    let mut driver = driver(Some(1));
    let outcome = driver.handle_command(
        ConnectionCommand::SetSpeaking {
            flags: SpeakingFlags::microphone(),
            delay: 3,
        },
        NOT_READY,
        at(0),
    );
    let CommandOutcome::Send(command) = outcome else {
        panic!("speaking is told to the gateway");
    };
    assert_eq!(
        command.text_payload().unwrap(),
        r#"{"op":5,"d":{"speaking":1,"delay":3,"ssrc":42}}"#
    );
    let CommandOutcome::PacketWaits { id: packet } = driver.handle_command(
        ConnectionCommand::RecvUdpPacket {
            kind: LowLevelReceiveKind::RawUdp,
            max_len: 1200,
        },
        NOT_READY,
        at(0),
    ) else {
        panic!("the caller waits");
    };
    let CommandOutcome::FrameWaits { id: frame } = driver.handle_command(
        ConnectionCommand::RecvVoiceFrame {
            max_len: 1200,
            max_wait: Some(Duration::from_millis(7)),
        },
        NOT_READY,
        at(0),
    ) else {
        panic!("the caller waits");
    };
    assert_ne!(packet, frame);
    assert_eq!(driver.next_driver_wake_deadline(at(0)), Some(at(7)));
    let CommandOutcome::MediaWaits { id } = driver.handle_command(
        ConnectionCommand::WaitUntilMediaReady {
            max_wait: Duration::from_millis(5),
        },
        NOT_READY,
        at(0),
    ) else {
        panic!("the caller waits");
    };
    assert_eq!(driver.next_driver_wake_deadline(at(0)), Some(at(5)));
    assert!(driver
        .resolve_pending_media_ready_waits(NOT_READY, at(4))
        .is_empty());
    let answers = driver.resolve_pending_media_ready_waits(NOT_READY, at(5));
    assert_eq!(answers.len(), 1);
    assert_eq!(answers[0].0, id);
    assert!(matches!(answers[0].1, Err(Error::Timeout { .. })));
    assert!(matches!(
        driver.handle_command(ConnectionCommand::DaveMediaStatus, NOT_READY, at(0)),
        CommandOutcome::Status(status) if status.requires_dave
    ));
    assert!(matches!(
        driver.handle_command(ConnectionCommand::Close, NOT_READY, at(0)),
        CommandOutcome::Closed
    ));
    assert!(driver.closed);
    assert!(!driver.close());
}

#[test]
fn commands_that_come_too_late_are_answered() {
    assert!(matches!(
        ConnectionCommand::DaveMediaStatus.complete_closed(),
        ClosedCommand::Status(status) if !status.media_ready
    ));
    assert!(matches!(
        ConnectionCommand::Close.complete_closed(),
        ClosedCommand::Nothing
    ));
    assert!(matches!(
        ConnectionCommand::RecvVoiceFrame {
            max_len: 1,
            max_wait: None,
        }
        .complete_closed(),
        ClosedCommand::Closed
    ));
}

#[test]
fn gateway_messages_change_the_state() {
    let mut driver = driver(Some(1));
    let effects = driver
        .handle_websocket_message(GatewayMessage::Text {
            seq: Some(11),
            event: GatewayTextEvent::ClientConnect {
                user_id: DiscordId::new(9),
                audio_ssrc: Some(77),
                ssrc: None,
            },
        })
        .ok()
        .unwrap()
        .unwrap();
    assert_eq!(driver.state.last_seq, Some(11));
    assert_eq!(driver.state.user_of(77), Some(9));
    driver.apply_gateway_effects(&effects).unwrap();
    let effects = driver
        .handle_websocket_message(GatewayMessage::Other)
        .ok()
        .unwrap()
        .unwrap();
    assert!(effects.removed_ssrcs.is_empty());
    assert!(!effects.media_session_updated);
    assert!(matches!(
        driver.handle_websocket_message(GatewayMessage::Failed("reset".to_string())),
        Err(Error::WebSocket(_))
    ));
    assert!(!driver.closed);
    assert!(driver
        .handle_websocket_message(GatewayMessage::Close)
        .ok()
        .unwrap()
        .is_none());
    assert!(driver.closed);
}

#[test]
fn new_sessions_replace_the_transport_key() {
    let mut driver = driver(Some(0));
    let xchacha = SessionDescription::new(SessionDescriptionParts {
        mode: EncryptionMode::aead_xchacha20_poly1305_rtpsize(),
        secret_key: SecretKey::new(vec![5; 32]),
        audio_codec: None,
        video_codec: None,
        dave_protocol_version: Some(0),
    })
    .unwrap();
    let expected = TransportCrypto::from_config(&xchacha.transport_crypto)
        .ok()
        .unwrap();
    let effects = driver
        .handle_websocket_message(GatewayMessage::Text {
            seq: None,
            event: GatewayTextEvent::SessionDescription(xchacha),
        })
        .ok()
        .unwrap()
        .unwrap();
    driver.apply_gateway_effects(&effects).unwrap();
    let mut frame = driver
        .send
        .begin_frame(Codec::Opus, b"frame", Duration::from_millis(20))
        .ok()
        .unwrap();
    let mut packet = Vec::new();
    driver
        .send
        .next_packet(&mut frame, &driver.transport_crypto, &mut packet)
        .ok()
        .unwrap();
    let rtp = RtpHeader::parse(&packet).unwrap();
    assert_eq!(expected.open_payload(&packet, &rtp).unwrap(), b"frame");
}

#[test]
fn frames_leave_in_packets() {
    let state = connected(Some(0), Some("VP8"));
    let video = negotiated_video_media(&state).unwrap();
    assert_eq!((video.codec, video.ssrc), (Codec::Vp8, 100));
    let nonce = HeartbeatNonce::from_random(Some([0; 8])).unwrap();
    let mut driver: ConnectionDriver<NoRawPackets, ()> =
        ConnectionDriver::new(state, nonce).ok().unwrap();
    let payload = vec![9; 3_000];
    let mut frame = driver
        .send
        .begin_frame(Codec::Vp8, &payload, Duration::from_millis(33))
        .ok()
        .unwrap();
    let mut packet = Vec::new();
    let mut count = 0;
    loop {
        match driver
            .send
            .next_packet(&mut frame, &driver.transport_crypto, &mut packet)
            .ok()
            .unwrap()
        {
            MediaStep::Send(sent) => {
                count += 1;
                assert_eq!(sent.rtp.ssrc, 100);
                assert_eq!(sent.packet_bytes, packet.len());
            }
            MediaStep::Finished(last) => {
                assert!(last.rtp.marker);
                break;
            }
        }
    }
    assert_eq!(count, 3);
    assert!(matches!(
        driver.send.begin_frame(Codec::Opus, &[], Duration::zero()),
        Err(Error::Rtp(RtpError::MalformedPayload {
            codec: Codec::Opus,
            ..
        }))
    ));
    assert!(matches!(
        driver.send.begin_frame(Codec::Av1, b"x", Duration::zero()),
        Err(Error::Protocol(ProtocolError::MediaCodecNotNegotiated {
            codec: Codec::Av1,
            ..
        }))
    ));
}

#[test]
fn unknown_codecs_end_the_setup() {
    let mut driver = driver(Some(0));
    assert!(matches!(
        driver.handle_websocket_message(GatewayMessage::Text {
            seq: None,
            event: GatewayTextEvent::SessionUpdate {
                audio_codec: Some("aac".to_string()),
                video_codec: None,
            },
        }),
        Err(Error::UnsupportedCodec(UnsupportedCodecError::UnsupportedAudioCodec { codec }))
            if codec == "aac"
    ));
}

#[test]
fn played_packets_wake_the_driver() {
    let mut driver = driver(Some(0));
    assert_eq!(driver.next_driver_wake_deadline(at(0)), None);
    let start: PlayoutCommand<(), &'static str> = PlayoutCommand::Start { response: () };
    driver.playout.handle_playout_command(start, at(0), false);
    let packet = Packet::from_bytes(vec![0xf8, 0xff, 0xfe]).unwrap();
    let push: PlayoutCommand<(), &'static str> = PlayoutCommand::packet(1, packet);
    driver.playout.handle_playout_command(push, at(0), false);
    assert_eq!(driver.next_driver_wake_deadline(at(0)), Some(at(0)));
    let gate = driver.media_gate(NOT_READY);
    assert!(matches!(
        driver.playout.resolve_active_playout(at(0), gate),
        PlayoutAction::Send { announce: true, .. }
    ));
    let command = driver.playout_speaking(SpeakingFlags::microphone());
    assert_eq!(
        command.text_payload().unwrap(),
        r#"{"op":5,"d":{"speaking":1,"delay":0,"ssrc":42}}"#
    );
}

#[test]
fn queues_say_what_became_of_a_command() {
    assert!(ensure_open(false).is_ok());
    assert!(matches!(ensure_open(true), Err(Error::Closed)));
    assert!(matches!(
        ensure_max_len(0),
        Err(Error::InvalidInput(InvalidInputError::ZeroMaxLen))
    ));
    assert!(ensure_max_len(1).is_ok());
    assert!(command_queued(Queued::Taken).is_ok());
    assert!(matches!(
        command_queued(Queued::Full),
        Err(Error::Backpressure(BackpressureError::CommandQueueFull))
    ));
    assert!(matches!(
        media_queued(Queued::Full),
        Err(Error::Backpressure(BackpressureError::MediaQueueFull))
    ));
    assert!(matches!(media_queued(Queued::Closed), Err(Error::Closed)));
}

#[test]
fn frames_in_time_are_given() {
    let wait = Duration::from_millis(5);
    let late: Result<ReceivedFrame<NoRawPackets>, Error> = Err(Error::Timeout {
        stage: None,
        duration: wait,
    });
    assert!(frame_in_time(late, wait).unwrap().is_none());
    let other: Result<ReceivedFrame<NoRawPackets>, Error> =
        Err(Error::Rtp(RtpError::PacketTooShort { len: 1 }));
    assert!(matches!(
        frame_in_time(other, wait),
        Err(Error::Rtp(RtpError::PacketTooShort { len: 1 }))
    ));
}

#[test]
fn close_frames_tell_of_ended_calls() {
    let ended = WebSocketCloseFrame::from_frame(4022, "4022".to_string(), String::new());
    assert!(ended.discord_call_terminated);
    let other = WebSocketCloseFrame::from_frame(4014, "4014".to_string(), "gone".to_string());
    assert!(!other.discord_call_terminated);
    assert_eq!(other.reason, "gone");
}

fn received(len: usize) -> ReceivedFrame<NoRawPackets> {
    ReceivedFrame {
        raw: NoRawPackets,
        rtp: RtpHeader {
            version: 2,
            padding: false,
            extension: false,
            marker: false,
            payload_type: RtpPayloadType::new(120).unwrap(),
            seq: 7,
            timestamp: 960,
            ssrc: 42,
            header_len: 12,
            encrypted_body_offset: 12,
        },
        user_id: Some(3),
        media_type: MediaType::Audio,
        codec: Codec::Opus,
        frame: vec![1; len],
    }
}

#[test]
fn one_frame_stream_is_open_at_a_time() {
    let mut driver = driver(None);
    let first = match driver.handle_command(
        ConnectionCommand::OpenFrameStream { max_len: 4 },
        NOT_READY,
        at(0),
    ) {
        CommandOutcome::StreamOpened { id } => id,
        _ => panic!("the stream was not opened"),
    };
    assert!(matches!(
        driver.handle_command(
            ConnectionCommand::OpenFrameStream { max_len: 9 },
            NOT_READY,
            at(1),
        ),
        CommandOutcome::StreamRefused(Error::Backpressure(BackpressureError::ActiveFrameStream))
    ));

    let ready = &mut driver.receive.ready_frames;
    assert!(driver.frame_streams.give(ready).is_none());
    ready.push(Ok(received(4)), false);
    ready.push(Ok(received(5)), false);
    let (id, frame) = driver.frame_streams.give(ready).unwrap();
    assert_eq!(id, first);
    assert_eq!(frame.ok().unwrap().frame, vec![1; 4]);
    let (_, frame) = driver.frame_streams.give(ready).unwrap();
    assert!(matches!(
        frame.err().unwrap(),
        Error::PayloadTooLarge {
            kind: PayloadKind::Frame,
            len: 5,
            max_len: 4,
        }
    ));

    assert!(!driver.frame_streams.detach(first + 1));
    assert!(driver.frame_streams.detach(first));
    ready.push(Ok(received(4)), false);
    assert!(driver.frame_streams.give(ready).is_none());
    assert_eq!(ready.len(), 1);
    assert!(matches!(
        driver.handle_command(
            ConnectionCommand::OpenFrameStream { max_len: 9 },
            NOT_READY,
            at(2),
        ),
        CommandOutcome::StreamOpened { .. }
    ));
}

fn first_packet(driver: &mut ConnectionDriver<NoRawPackets, ()>, codec: Codec) -> OutboundPacket {
    let mut frame = driver
        .send
        .begin_frame(codec, b"frame", Duration::from_millis(20))
        .ok()
        .unwrap();
    let mut packet = Vec::new();
    match driver
        .send
        .next_packet(&mut frame, &driver.transport_crypto, &mut packet)
        .ok()
        .unwrap()
    {
        MediaStep::Send(sent) => sent,
        MediaStep::Finished(_) => panic!("no packet was made"),
    }
}

fn no_nonce() -> Error {
    Error::TransportCrypto(TransportCryptoError::NonceRandomnessUnavailable)
}

#[test]
fn streams_start_under_the_nonces_that_were_drawn() {
    let audio = RtpSizeNonceSuffix::from_be_bytes([1, 2, 3, 4]);
    let video = RtpSizeNonceSuffix::from_be_bytes([5, 6, 7, 8]);
    let nonce = HeartbeatNonce::from_random(Some([0; 8])).unwrap();
    let state = connected(Some(0), Some("VP8"));
    let streams = SendPipeline::starting_with(&state, Ok(audio), Some(Ok(video)));
    let mut driver: ConnectionDriver<NoRawPackets, ()> =
        ConnectionDriver::with_streams(state, nonce, streams)
            .ok()
            .unwrap();
    let sent = first_packet(&mut driver, Codec::Opus);
    assert_eq!((sent.rtp.seq, sent.rtp.ssrc), (0, 42));
    assert_eq!(sent.nonce_suffix, audio);
    let sent = first_packet(&mut driver, Codec::Vp8);
    assert_eq!((sent.rtp.seq, sent.rtp.ssrc), (0, 100));
    assert_eq!(sent.nonce_suffix, video);

    let state = connected(Some(0), Some("VP8"));
    assert!(matches!(
        SendPipeline::starting_with(&state, Ok(audio), Some(Err(no_nonce()))),
        Err(Error::TransportCrypto(
            TransportCryptoError::NonceRandomnessUnavailable
        ))
    ));
    let plain = connected(Some(0), None);
    assert!(SendPipeline::starting_with(&plain, Err(no_nonce()), None).is_err());
    assert!(SendPipeline::starting_with(&plain, Ok(audio), None).is_ok());
    assert!(
        ConnectionDriver::<NoRawPackets, ()>::with_streams(plain, nonce, Err(no_nonce())).is_err()
    );
    let mut unknown = connected(Some(0), None);
    unknown.session_description = None;
    assert!(matches!(
        ConnectionDriver::<NoRawPackets, ()>::with_streams(unknown, nonce, Err(no_nonce())),
        Err(Error::Protocol(ProtocolError::MissingSessionDescription))
    ));
}

#[test]
fn video_streams_follow_the_agreement() {
    let nonce = RtpSizeNonceSuffix::from_be_bytes([9, 9, 9, 9]);
    let mut driver: ConnectionDriver<NoRawPackets, ()> = ConnectionDriver::new(
        connected(Some(0), None),
        HeartbeatNonce::from_random(Some([0; 8])).unwrap(),
    )
    .ok()
    .unwrap();
    assert!(driver.send.draw_nonce(&driver.state).is_none());
    driver.state = connected(Some(0), Some("VP8"));
    assert!(matches!(
        driver.send.draw_nonce(&driver.state),
        Some(Ok(_))
    ));
    assert!(driver
        .send
        .follow_agreement(&driver.state, Some(Err(no_nonce())))
        .is_err());
    assert!(driver.send.outbound_video_rtp.is_none());
    driver
        .send
        .follow_agreement(&driver.state, Some(Ok(nonce)))
        .unwrap();
    assert_eq!(first_packet(&mut driver, Codec::Vp8).nonce_suffix, nonce);
    assert!(driver.send.draw_nonce(&driver.state).is_none());
    driver.send.update_negotiated_media(&driver.state).unwrap();
    assert_eq!(first_packet(&mut driver, Codec::Vp8).rtp.seq, 1);
    driver.state = connected(Some(0), None);
    driver.send.update_negotiated_media(&driver.state).unwrap();
    assert!(driver.send.outbound_video_rtp.is_none());
}

fn complete_media(seq: u16) -> PendingMediaFrame<NoRawPackets> {
    let frame = received(usize::from(seq));
    PendingMediaFrame {
        raw: NoRawPackets,
        rtp: frame.rtp,
        user_id: Some(3),
        codec: Codec::Opus,
        encrypted_frame: frame.frame,
        dave: false,
        enqueued_at: at(0),
        reason: DavePendingMediaReason::SessionNotReady,
        was_pending: false,
    }
}

#[test]
fn callers_are_served_before_the_stream() {
    let mut driver = driver(None);
    let mut reports = ReceiveReports::new();
    let stream = match driver.handle_command(
        ConnectionCommand::OpenFrameStream { max_len: 9 },
        NOT_READY,
        at(0),
    ) {
        CommandOutcome::StreamOpened { id } => id,
        _ => panic!("the stream was not opened"),
    };
    let caller = match driver.handle_command(
        ConnectionCommand::RecvVoiceFrame {
            max_len: 9,
            max_wait: Some(Duration::from_secs(1)),
        },
        NOT_READY,
        at(0),
    ) {
        CommandOutcome::FrameWaits { id } => id,
        _ => panic!("the caller does not wait"),
    };
    let moment = driver.media_moment(false, at(0), true);
    assert!(matches!(
        driver.serve_step(moment, true, &mut reports),
        ServeStep::Done
    ));
    for len in [1, 2, 3] {
        let step = driver.receive.take_result(
            Ok(Some(complete_media(len))),
            &driver.state,
            moment,
            &mut reports,
        );
        assert!(matches!(step, FrameStep::Again));
    }
    match driver.serve_step(moment, true, &mut reports) {
        ServeStep::GiveCaller { id, result } => {
            assert_eq!(id, caller);
            assert_eq!(result.ok().unwrap().frame.len(), 1);
        }
        _ => panic!("the caller was not served"),
    }
    match driver.serve_step(moment, true, &mut reports) {
        ServeStep::GiveStream { id, result } => {
            assert_eq!(id, stream);
            assert_eq!(result.ok().unwrap().frame.len(), 2);
        }
        _ => panic!("the stream was not served"),
    }
    assert!(matches!(
        driver.serve_step(moment, false, &mut reports),
        ServeStep::Done
    ));
    assert_eq!(driver.receive.ready_frames.len(), 1);
}

#[test]
fn secrets_of_a_config_are_wiped() {
    let mut config = ConnectionConfig {
        guild_id: 1,
        channel_id: 2,
        user_id: 3,
        session_id: "session".to_string(),
        token: "token".to_string(),
        endpoint: "127.0.0.1".to_string(),
    };
    config.erase();
    assert_eq!((config.session_id.as_str(), config.token.as_str()), ("", ""));
    assert_eq!(config.endpoint, "127.0.0.1");
    assert_eq!((config.guild_id, config.channel_id, config.user_id), (1, 2, 3));
    let validated = config.validate().ok().unwrap();
    assert!(validated.options.dave_identity.is_none());
}
