//! The path of a received packet: ordering, assembly, decryption and waiting.

use std::collections::{HashMap, HashSet};

use cacophony::codecs::{payload_type, DiscordRtpCodecMap};
use cacophony::connection::intake::MediaTurn;
use cacophony::connection::turns::{FrameStep, MediaMoment};
use cacophony::connection::{
    limit_raw_packet_result, limit_voice_frame_result, LowLevelReceiveKind, ReadyFrameQueue,
    ReceivePipeline, ReceiveReports, RetriedMedia, UdpPacketReceives,
};
use cacophony::errors::{
    DaveDecryptError, DecryptError, Error, FrameDecryptError, PayloadKind, RtpError,
    TransportCryptoError,
};
use cacophony::gateway::{GatewayReady, UdpDiscoveryPacket};
use cacophony::media::crypto::OutboundEncryptParams;
use cacophony::media::{
    FrameRaw, NoRawPackets, RawFramePackets, RawUdpPacket, RawUdpPacketInfo, ReceivedFrame,
    RtpFrameAssembler, RtpHeader, RtpHeaderBuilder, RtpHeaderFields, RtpSizeNonceSuffix,
    TransportCrypto,
};
use cacophony::observer::{
    DavePendingMediaReason, ReceiveDecodeErrorKind, ReceiveDecodeStage, ReceiveRtpEvent,
};
use cacophony::secrets::SecretKey;
use cacophony::state::{
    ConnectionConfig, ConnectionInternalState, ConnectionTuning, DaveInternalState,
    DavePendingMediaBucket, DavePendingMediaRetry, EncryptionMode, OfferedEncryptionMode,
    PendingDaveMediaQueues, PendingMediaFrame, PendingMediaPacket, ReceiveSsrcState, ReceiveState,
    SessionDescription, SessionDescriptionParts,
};
use cacophony::time::{Duration, Instant};
use cacophony::{Codec, MediaType, RtpPayloadType};

const TEST_DISCORD_ID: u64 = 0xDEADBEEF;

fn now() -> Instant {
    Instant::from_nanos(1_000_000_000_000)
}

fn test_opus_payload_type() -> RtpPayloadType {
    RtpPayloadType::new_const(120)
}

fn rtp_header(
    ssrc: u32,
    seq: u16,
    timestamp: u32,
    payload_type: RtpPayloadType,
    marker: bool,
) -> RtpHeader {
    RtpHeader {
        version: 2,
        padding: false,
        extension: false,
        marker,
        payload_type,
        seq,
        timestamp,
        ssrc,
        header_len: 12,
        encrypted_body_offset: 12,
    }
}

fn test_pending_media(ssrc: u32, seq: u16) -> PendingMediaPacket<NoRawPackets> {
    PendingMediaPacket {
        raw: (),
        rtp: rtp_header(
            ssrc,
            seq,
            u32::from(seq) * 960,
            test_opus_payload_type(),
            false,
        ),
        user_id: Some(TEST_DISCORD_ID),
        codec: Codec::Opus,
        encrypted_payload: vec![seq as u8],
        dave: false,
    }
}

fn test_pending_video_media(
    ssrc: u32,
    seq: u16,
    timestamp: u32,
    codec: Codec,
    marker: bool,
    encrypted_payload: Vec<u8>,
) -> PendingMediaPacket<NoRawPackets> {
    PendingMediaPacket {
        raw: (),
        rtp: rtp_header(ssrc, seq, timestamp, payload_type(codec), marker),
        user_id: Some(TEST_DISCORD_ID),
        codec,
        encrypted_payload,
        dave: false,
    }
}

fn test_pending_raw_media(
    ssrc: u32,
    seq: u16,
    raw: Vec<u8>,
) -> PendingMediaPacket<RawFramePackets> {
    PendingMediaPacket {
        raw: RawFramePackets::capture_packet(&raw, RawUdpPacketInfo::from_bytes(&raw)),
        rtp: rtp_header(
            ssrc,
            seq,
            u32::from(seq) * 960,
            test_opus_payload_type(),
            false,
        ),
        user_id: Some(TEST_DISCORD_ID),
        codec: Codec::Opus,
        encrypted_payload: vec![seq as u8],
        dave: false,
    }
}

fn test_received_frame_with_seq(seq: u16, frame: Vec<u8>) -> ReceivedFrame<NoRawPackets> {
    ReceivedFrame {
        raw: NoRawPackets,
        rtp: rtp_header(0, seq, 0, test_opus_payload_type(), false),
        user_id: Some(1),
        media_type: MediaType::Audio,
        codec: Codec::Opus,
        frame,
    }
}

fn test_received_frame_with_ssrc(ssrc: u32, seq: u16) -> ReceivedFrame<NoRawPackets> {
    let mut frame = test_received_frame_with_seq(seq, vec![seq as u8]);
    frame.rtp.ssrc = ssrc;
    frame
}

fn test_pending_frame(ssrc: u32, seq: u16) -> PendingMediaFrame<NoRawPackets> {
    PendingMediaFrame {
        raw: NoRawPackets,
        rtp: rtp_header(ssrc, seq, 0, test_opus_payload_type(), false),
        user_id: Some(TEST_DISCORD_ID),
        codec: Codec::Opus,
        encrypted_frame: vec![seq as u8],
        dave: true,
        enqueued_at: now(),
        reason: DavePendingMediaReason::DecryptStatePending,
        was_pending: false,
    }
}

fn test_pending_frame_enqueued(
    ssrc: u32,
    seq: u16,
    enqueued_at: Instant,
    reason: DavePendingMediaReason,
) -> PendingMediaFrame<NoRawPackets> {
    let mut frame = test_pending_frame(ssrc, seq);
    frame.enqueued_at = enqueued_at;
    frame.reason = reason;
    frame
}

fn test_receive_state() -> ReceiveState<NoRawPackets> {
    ReceiveState::new(ConnectionTuning::default())
}

fn test_ready_queue() -> ReadyFrameQueue<NoRawPackets> {
    ReadyFrameQueue::new(ConnectionTuning::default().ready_frame_buffer_max)
}

fn losses(events: &[ReceiveRtpEvent]) -> Vec<(u16, u16, u16)> {
    events
        .iter()
        .filter_map(|event| match event {
            ReceiveRtpEvent::Loss(loss) => {
                Some((loss.first_seq, loss.last_seq, loss.missing_packets))
            }
            ReceiveRtpEvent::Packet(_) => None,
        })
        .collect()
}

#[test]
fn receive_rtp_reorders_adjacent_packets_without_loss() {
    let mut events = Vec::new();
    let mut receive = test_receive_state();

    assert_eq!(
        receive
            .push_media_packet(test_pending_media(7, 7), now(), true, &mut events)
            .ok()
            .unwrap()
            .unwrap()
            .rtp
            .seq,
        7
    );
    assert!(receive
        .push_media_packet(test_pending_media(7, 9), now(), true, &mut events)
        .ok()
        .unwrap()
        .is_none());
    assert_eq!(losses(&events).len(), 0);
    assert_eq!(
        receive
            .push_media_packet(test_pending_media(7, 8), now(), true, &mut events)
            .ok()
            .unwrap()
            .unwrap()
            .rtp
            .seq,
        8
    );
    assert_eq!(
        receive
            .drain_ordered_media(now(), true, &mut events)
            .ok()
            .unwrap()
            .unwrap()
            .rtp
            .seq,
        9
    );
    assert_eq!(
        receive
            .push_media_packet(test_pending_media(7, 10), now(), true, &mut events)
            .ok()
            .unwrap()
            .unwrap()
            .rtp
            .seq,
        10
    );
    assert_eq!(losses(&events).len(), 0);
}

#[test]
fn receive_rtp_reports_loss_only_after_reorder_window_expires() {
    let mut events = Vec::new();
    let mut receive = test_receive_state();

    assert_eq!(
        receive
            .push_media_packet(test_pending_media(7, 7), now(), true, &mut events)
            .ok()
            .unwrap()
            .unwrap()
            .rtp
            .seq,
        7
    );
    assert!(receive
        .push_media_packet(test_pending_media(7, 9), now(), true, &mut events)
        .ok()
        .unwrap()
        .is_none());
    assert!(receive
        .drain_ordered_media(now(), true, &mut events)
        .ok()
        .unwrap()
        .is_none());
    let ttl = ConnectionTuning::default().rtp_reorder_ttl;
    assert_eq!(receive.pending_rtp_reorder_deadline(), Some(now().plus(ttl)));
    let later = now().plus(ttl).plus(Duration::from_millis(1));

    assert_eq!(
        receive
            .drain_ordered_media(later, true, &mut events)
            .ok()
            .unwrap()
            .unwrap()
            .rtp
            .seq,
        9
    );
    assert_eq!(losses(&events), vec![(8, 8, 1)]);
}

#[test]
fn packets_far_ahead_give_up_on_the_gap() {
    let mut tuning = ConnectionTuning::default();
    tuning.rtp_reorder_buffer_max_frames = 3;
    let mut events = Vec::new();
    let mut receive = ReceiveState::<NoRawPackets>::new(tuning);
    let mut seqs = Vec::new();
    for seq in [1, 3, 4, 5, 6, 7] {
        let pushed = receive
            .push_media_packet(test_pending_media(7, seq), now(), true, &mut events)
            .ok()
            .unwrap();
        seqs.extend(pushed.map(|frame| frame.rtp.seq));
        while let Some(frame) = receive
            .drain_ordered_media(now(), true, &mut events)
            .ok()
            .unwrap()
        {
            seqs.push(frame.rtp.seq);
        }
    }
    assert_eq!(seqs, vec![1, 6, 7]);
    assert_eq!(losses(&events), vec![(2, 5, 4)]);
}

#[test]
fn late_packets_are_dropped() {
    let mut events = Vec::new();
    let mut receive = test_receive_state();
    receive
        .push_media_packet(test_pending_media(7, 7), now(), true, &mut events)
        .ok()
        .unwrap();
    assert!(receive
        .push_media_packet(test_pending_media(7, 6), now(), true, &mut events)
        .ok()
        .unwrap()
        .is_none());
    assert!(receive
        .drain_ordered_media(now(), true, &mut events)
        .ok()
        .unwrap()
        .is_none());
}

#[test]
fn ready_voice_frame_queue_reports_overflow() {
    let mut queue = test_ready_queue();
    let max_frames = ConnectionTuning::default().ready_frame_buffer_max;
    let mut drops = Vec::new();

    for seq in 0..=max_frames {
        drops.extend(queue.push(
            Ok(test_received_frame_with_seq(seq as u16, vec![0xde])),
            true,
        ));
    }

    assert_eq!(queue.len(), max_frames);
    assert_eq!(drops.len(), 1);
    assert_eq!(drops[0].seq, Some(0));
    assert_eq!(drops[0].queued_frames, max_frames - 1);
    assert!(!drops[0].dropped_error);
}

#[test]
fn ready_voice_frame_queue_preserves_decode_errors() {
    let mut queue = test_ready_queue();

    queue.push(Err(Error::Rtp(RtpError::PacketTooShort { len: 1 })), true);

    assert!(matches!(
        queue.pop_front(),
        Some(Err(Error::Rtp(RtpError::PacketTooShort { len: 1 })))
    ));
}

#[test]
fn receive_max_len_is_applied_after_packet_capture() {
    let raw = RawUdpPacket::from_bytes(vec![0xde, 0xad, 0xbe, 0xef]);

    assert!(matches!(
        raw.ensure_len_at_most(3, PayloadKind::RawUdpPacket),
        Err(Error::PayloadTooLarge {
            kind: PayloadKind::RawUdpPacket,
            len: 4,
            max_len: 3,
        })
    ));
    assert!(matches!(
        test_received_frame_with_seq(0, vec![0xde, 0xad]).ensure_len_at_most(1),
        Err(Error::PayloadTooLarge {
            kind: PayloadKind::Frame,
            len: 2,
            max_len: 1,
        })
    ));
    let raw = RawUdpPacket::from_bytes(vec![1, 2]);
    assert!(limit_raw_packet_result(raw, 2, PayloadKind::RtpPacket).is_ok());
    let frame = Ok(test_received_frame_with_seq(0, vec![1, 2]));
    assert!(limit_voice_frame_result(frame, 2).is_ok());
}

#[test]
fn receive_raw_packet_retention_is_type_selected() {
    let mut events = Vec::new();
    let mut compact_receive = test_receive_state();

    assert_eq!(
        compact_receive
            .push_media_packet(test_pending_media(7, 1), now(), false, &mut events)
            .ok()
            .unwrap()
            .unwrap()
            .raw,
        NoRawPackets,
    );

    let mut raw_receive = ReceiveState::<RawFramePackets>::new(ConnectionTuning::default());
    let mut raw_bytes = Vec::new();
    RtpHeaderBuilder::new(RtpHeaderFields {
        seq: 1,
        timestamp: 960,
        ssrc: 7,
        payload_type: test_opus_payload_type(),
    })
    .write_to(&mut raw_bytes);
    let frame = raw_receive
        .push_media_packet(
            test_pending_raw_media(7, 1, raw_bytes.clone()),
            now(),
            false,
            &mut events,
        )
        .ok()
        .unwrap()
        .unwrap();

    assert_eq!(frame.raw.packets.len(), 1);
    assert_eq!(frame.raw.packets[0].bytes, raw_bytes);
    assert_eq!(frame.raw.packets[0].info.seq, Some(1));
}

#[test]
fn av1_receive_uses_timestamp_change_to_finish_markerless_temporal_unit() {
    let mut events = Vec::new();
    let mut receive = test_receive_state();

    for (seq, byte) in [(1, 0xaa), (2, 0xbb)] {
        assert!(receive
            .push_media_packet(
                test_pending_video_media(7, seq, 90_000, Codec::Av1, false, vec![0x10, byte]),
                now(),
                false,
                &mut events,
            )
            .ok()
            .unwrap()
            .is_none());
    }

    let first = receive
        .push_media_packet(
            test_pending_video_media(7, 3, 180_000, Codec::Av1, true, vec![0x10, 0xcc]),
            now(),
            false,
            &mut events,
        )
        .ok()
        .unwrap()
        .unwrap();
    let second = receive
        .drain_ordered_media(now(), false, &mut events)
        .ok()
        .unwrap()
        .unwrap();

    assert_eq!(first.rtp.seq, 1);
    assert_eq!(first.encrypted_frame, [0xaa, 0xbb]);
    assert_eq!(second.rtp.seq, 3);
    assert_eq!(second.encrypted_frame, [0xcc]);
}

#[test]
fn rtp_frame_assembler_drops_non_contiguous_fragmented_frame() {
    let mut assembler = RtpFrameAssembler::<NoRawPackets>::new();

    assert!(assembler
        .push_packet(
            test_pending_video_media(7, 1, 90_000, Codec::Vp8, false, vec![0x10, 0xaa]),
            now(),
        )
        .ok()
        .unwrap()
        .is_none());
    assert!(assembler
        .push_packet(
            test_pending_video_media(7, 3, 90_000, Codec::Vp8, true, vec![0x00, 0xbb]),
            now(),
        )
        .ok()
        .unwrap()
        .is_none());

    let frame = assembler
        .push_packet(
            test_pending_video_media(7, 4, 180_000, Codec::Vp8, true, vec![0x10, 0xcc]),
            now(),
        )
        .ok()
        .unwrap()
        .unwrap();

    assert_eq!(frame.rtp.seq, 4);
    assert_eq!(frame.encrypted_frame, [0xcc]);
}

#[test]
fn packets_in_order_give_the_frame() {
    let mut assembler = RtpFrameAssembler::<NoRawPackets>::new();
    for (seq, payload) in [(1, vec![0x10, 1, 2]), (2, vec![0x00, 3])] {
        assert!(assembler
            .push_packet(
                test_pending_video_media(7, seq, 9, Codec::Vp8, false, payload),
                now(),
            )
            .ok()
            .unwrap()
            .is_none());
    }
    let frame = assembler
        .push_packet(
            test_pending_video_media(7, 3, 9, Codec::Vp8, true, vec![0x00, 4]),
            now(),
        )
        .ok()
        .unwrap()
        .unwrap();
    assert_eq!(frame.encrypted_frame, [1, 2, 3, 4]);
    assert_eq!(frame.rtp.seq, 1);
    assert!(!assembler.has_completed_frame());
}

#[test]
fn frames_without_a_start_are_dropped() {
    let mut assembler = RtpFrameAssembler::<NoRawPackets>::new();
    assert!(assembler
        .push_packet(
            test_pending_video_media(7, 3, 9, Codec::Vp8, true, vec![0x00, 4]),
            now(),
        )
        .ok()
        .unwrap()
        .is_none());
    assert!(matches!(
        assembler.push_packet(
            test_pending_video_media(7, 4, 9, Codec::Vp8, true, vec![]),
            now(),
        ),
        Err(Error::Rtp(RtpError::MalformedPayload { .. }))
    ));
}

#[test]
fn receive_state_prunes_removed_ssrcs() {
    let mut events = Vec::new();
    let mut receive = test_receive_state();
    for ssrc in [123, 456] {
        receive
            .push_media_packet(test_pending_media(ssrc, 1), now(), false, &mut events)
            .ok()
            .unwrap();
    }
    receive.pending_dave_media_mut().push(test_pending_frame(123, 1));
    receive.pending_dave_media_mut().push(test_pending_frame(456, 2));

    receive.prune_ssrcs(&HashSet::from([123]));

    // The removed source begins anew; the other one still waits for its packet 2.
    assert!(receive
        .push_media_packet(test_pending_media(123, 9), now(), false, &mut events)
        .ok()
        .unwrap()
        .is_some());
    assert!(receive
        .push_media_packet(test_pending_media(456, 9), now(), false, &mut events)
        .ok()
        .unwrap()
        .is_none());
    assert_eq!(receive.pending_dave_media().len(), 1);
    assert_eq!(
        receive
            .pending_dave_media()
            .get(DavePendingMediaBucket::DecryptStatePending, 0)
            .unwrap()
            .rtp
            .ssrc,
        456
    );
}

fn test_queues() -> PendingDaveMediaQueues<NoRawPackets> {
    PendingDaveMediaQueues::new(ConnectionTuning::default().dave_pending_media_ttl)
}

#[test]
fn pending_dave_media_retry_takes_only_selected_buckets() {
    let mut queues = test_queues();
    let mut missing_user = test_pending_frame(1, 1);
    missing_user.reason = DavePendingMediaReason::MissingUser;
    let mut gateway_pending = test_pending_frame(2, 2);
    gateway_pending.reason = DavePendingMediaReason::GatewayPending;
    queues.push(missing_user);
    queues.push(gateway_pending);

    let mut retry = Vec::new();
    while let Some(media) = queues.pop_retry(DavePendingMediaRetry::missing_user()) {
        retry.push(media);
    }

    assert_eq!(retry.len(), 1);
    assert_eq!(retry[0].rtp.ssrc, 1);
    assert_eq!(queues.len(), 1);
    assert_eq!(
        queues
            .get(DavePendingMediaBucket::GatewayPending, 0)
            .unwrap()
            .rtp
            .ssrc,
        2
    );
}

#[test]
fn pending_dave_media_deadline_uses_bucket_heads() {
    let now = now();
    let ttl = ConnectionTuning::default().dave_pending_media_ttl;
    let expired_at =
        Instant::from_nanos(now.as_nanos() - ttl.as_nanos() - 1_000_000);
    let mut queues = test_queues();
    queues.push(test_pending_frame_enqueued(
        1,
        1,
        now,
        DavePendingMediaReason::GatewayPending,
    ));
    queues.push(test_pending_frame_enqueued(
        2,
        2,
        expired_at,
        DavePendingMediaReason::GatewayPending,
    ));

    assert_eq!(queues.deadline(), Some(expired_at.plus(ttl)));
    let mut expired = Vec::new();
    while let Some(media) = queues.pop_expired(now) {
        expired.push(media);
    }

    assert_eq!(expired.len(), 1);
    assert_eq!(expired[0].rtp.ssrc, 2);
    assert_eq!(queues.len(), 1);
    assert_eq!(
        queues
            .get(DavePendingMediaBucket::GatewayPending, 0)
            .unwrap()
            .rtp
            .ssrc,
        1
    );
}

#[test]
fn pending_dave_media_deadline_uses_earliest_bucket_head() {
    let now = now();
    let older = Instant::from_nanos(now.as_nanos() - 10_000_000);
    let ttl = ConnectionTuning::default().dave_pending_media_ttl;
    let mut queues = test_queues();
    queues.push(test_pending_frame_enqueued(
        1,
        1,
        now,
        DavePendingMediaReason::MissingUser,
    ));
    queues.push(test_pending_frame_enqueued(
        2,
        2,
        older,
        DavePendingMediaReason::GatewayPending,
    ));

    assert_eq!(queues.deadline(), Some(older.plus(ttl)));
}

#[test]
fn ready_frame_queue_prunes_removed_ssrcs() {
    let mut queue = test_ready_queue();
    queue.push(Ok(test_received_frame_with_ssrc(123, 1)), false);
    queue.push(Ok(test_received_frame_with_ssrc(456, 2)), false);

    queue.prune_ssrcs(&HashSet::from([123]));

    assert_eq!(queue.len(), 1);
    assert_eq!(queue.pop_front().unwrap().unwrap().rtp.ssrc, 456);
}

#[test]
fn receive_interarrival_stats_use_bounded_sorted_window() {
    let mut state = ReceiveSsrcState::<NoRawPackets>::new(ConnectionTuning::default());
    let window = ConnectionTuning::default().receive_interarrival_window;
    for interarrival_us in 0..(window as u64 + 10) {
        state.record_interarrival(interarrival_us);
    }

    assert_eq!(state.interarrival_len(), window);
    assert_eq!(state.interarrival_p95_us(), Some(252));
    assert_eq!(state.interarrival_max_us(), Some(265));
}

#[test]
fn dave_no_valid_cryptor_retries_only_while_state_can_still_change() {
    assert!(!ReceiveDecodeErrorKind::DaveNoValidCryptor.should_retry_dave_decrypt(false));
    assert!(ReceiveDecodeErrorKind::DaveNoValidCryptor.should_retry_dave_decrypt(true));
    assert!(!ReceiveDecodeErrorKind::DaveNoDecryptorForUser.should_retry_dave_decrypt(false));
    assert!(ReceiveDecodeErrorKind::DaveNoDecryptorForUser.should_retry_dave_decrypt(true));
    assert!(
        !ReceiveDecodeErrorKind::DaveUnencryptedWhenPassthroughDisabled
            .should_retry_dave_decrypt(true)
    );
}

fn test_state() -> ConnectionInternalState {
    let selected_mode = EncryptionMode::aead_aes256_gcm_rtpsize();
    let config = ConnectionConfig {
        guild_id: 1,
        channel_id: 2,
        user_id: 3,
        session_id: "session".to_string(),
        token: "token".to_string(),
        endpoint: "127.0.0.1".to_string(),
    }
    .validate()
    .ok()
    .unwrap()
    .runtime_config();
    let session_description = SessionDescription::new(SessionDescriptionParts {
        mode: selected_mode,
        secret_key: SecretKey::new(vec![7; 32]),
        audio_codec: None,
        video_codec: None,
        dave_protocol_version: Some(0),
    })
    .unwrap();
    let rtp_codecs =
        DiscordRtpCodecMap::new(&session_description, &config.options.codec_preferences).unwrap();
    ConnectionInternalState {
        config,
        heartbeat_interval_ms: 50,
        last_seq: None,
        ready: GatewayReady {
            ssrc: 42,
            ip: "127.0.0.1".to_string(),
            port: 5000,
            modes: vec![OfferedEncryptionMode::of(selected_mode)],
            heartbeat_interval: None,
            streams: Vec::new(),
        },
        discovery: UdpDiscoveryPacket {
            ssrc: 42,
            address: "127.0.0.1".to_string(),
            port: 5001,
        },
        selected_mode,
        session_description: Some(session_description),
        rtp_codecs: Some(rtp_codecs),
        connected_user_ids: HashSet::new(),
        ssrc_users: HashMap::from([(9, 77)]),
        speaking: HashMap::new(),
        dave: DaveInternalState::default(),
        roster_authoritative: false,
        resumed: false,
    }
}

fn test_crypto(state: &ConnectionInternalState) -> TransportCrypto {
    let session = state.session_description.as_ref().unwrap();
    TransportCrypto::from_config(&session.transport_crypto)
        .ok()
        .unwrap()
}

fn datagram(crypto: &TransportCrypto, seq: u16, payload: &[u8]) -> Vec<u8> {
    let mut packet = Vec::new();
    crypto
        .encrypt_payload(
            OutboundEncryptParams {
                header: RtpHeaderFields {
                    seq,
                    timestamp: 960,
                    ssrc: 9,
                    payload_type: test_opus_payload_type(),
                },
                marker: false,
                nonce_suffix: RtpSizeNonceSuffix::from_be_bytes([0, 0, 0, 1]),
            },
            payload,
            &mut packet,
        )
        .unwrap();
    packet
}

#[test]
fn datagrams_become_frames_of_their_users() {
    let state = test_state();
    let crypto = test_crypto(&state);
    let mut reports = ReceiveReports::new();
    let mut pipeline = ReceivePipeline::<NoRawPackets>::new(ConnectionTuning::default());
    pipeline
        .packet_receives
        .push(LowLevelReceiveKind::RtpUdp, 5, 1200);
    let bytes = datagram(&crypto, 1, b"opus");
    let turn = pipeline
        .handle_received_udp_packet(&bytes, &state, &crypto, now(), true, &mut reports);
    assert_eq!(turn.info.seq, Some(1));
    assert_eq!(turn.given.len(), 1);
    assert_eq!(turn.given[0].0, 5);
    assert_eq!(turn.given[0].1.as_ref().unwrap().bytes, bytes);
    let media = turn.media.unwrap().ok().unwrap().unwrap();
    assert_eq!(media.user_id, Some(77));
    assert_eq!(media.encrypted_frame, b"opus");
    let turn = pipeline.sort_media(media, &state, None, false, now(), true, &mut reports);
    let MediaTurn::Ready(frame) = turn else {
        panic!("plain media needs no decryption");
    };
    assert_eq!(frame.frame, b"opus");
    assert_eq!(frame.media_type, MediaType::Audio);
    assert_eq!(reports.decode_errors.len(), 0);
    assert_eq!(reports.rtp.len(), 1);
}

#[test]
fn undecodable_datagrams_are_reported() {
    let state = test_state();
    let crypto = test_crypto(&state);
    let mut reports = ReceiveReports::new();
    let mut pipeline = ReceivePipeline::<NoRawPackets>::new(ConnectionTuning::default());
    let mut bytes = datagram(&crypto, 1, b"opus");
    bytes[13] ^= 1;
    let turn = pipeline
        .handle_received_udp_packet(&bytes, &state, &crypto, now(), true, &mut reports);
    assert!(matches!(
        turn.media,
        Some(Err(Error::TransportCrypto(_)))
    ));
    assert_eq!(reports.decode_errors.len(), 1);
    assert_eq!(reports.decode_errors[0].stage, ReceiveDecodeStage::Transport);
    assert_eq!(
        reports.decode_errors[0].kind,
        ReceiveDecodeErrorKind::TransportDecryptFailed
    );
    assert_eq!(
        reports.decode_errors[0].detail,
        Error::TransportCrypto(TransportCryptoError::AesGcmDecryptFailed).message()
    );
}

#[test]
fn encrypted_media_waits_for_its_session() {
    let mut state = test_state();
    state.dave.set_session_protocol(Some(1));
    let mut reports = ReceiveReports::new();
    let mut pipeline = ReceivePipeline::<NoRawPackets>::new(ConnectionTuning::default());
    let mut media = test_pending_frame(9, 1);
    media.user_id = Some(77);
    let turn = pipeline.sort_media(media, &state, None, false, now(), true, &mut reports);
    assert!(matches!(turn, MediaTurn::Kept));
    assert_eq!(reports.pending_enqueued.len(), 1);
    assert_eq!(
        reports.pending_enqueued[0].reason,
        DavePendingMediaReason::SessionNotReady
    );
    let retried =
        pipeline.take_retry(DavePendingMediaRetry::dave_state(), now(), true, &mut reports);
    let RetriedMedia::Media(media) = retried else {
        panic!("the frame waits");
    };
    assert!(media.was_pending);
    let ttl = ConnectionTuning::default().dave_pending_media_ttl;
    let turn = pipeline.sort_media(media, &state, None, false, now(), true, &mut reports);
    assert!(matches!(turn, MediaTurn::Kept));
    pipeline.expire_pending_dave_media(now().plus(ttl), true, &mut reports);
    assert_eq!(reports.pending_dropped.len(), 1);
    assert_eq!(
        reports.pending_dropped[0].reason,
        DavePendingMediaReason::Expired
    );
    assert!(matches!(
        pipeline.take_retry(DavePendingMediaRetry::dave_state(), now(), true, &mut reports),
        RetriedMedia::Nothing
    ));
}

#[test]
fn decrypted_media_becomes_a_frame() {
    let mut reports = ReceiveReports::new();
    let mut pipeline = ReceivePipeline::<NoRawPackets>::new(ConnectionTuning::default());
    let result = pipeline
        .finish_dave_media(
            test_pending_frame(9, 1),
            Ok(b"plain".to_vec()),
            true,
            now(),
            true,
            &mut reports,
        )
        .unwrap();
    assert_eq!(result.unwrap().frame, b"plain");
    let failure = || {
        DaveDecryptError::from_source(DecryptError::Frame(FrameDecryptError::NoValidCryptor {
            media_type: MediaType::Audio,
            encrypted_size: 12,
            plaintext_capacity: 8,
            manager_count: 2,
        }))
    };
    assert!(pipeline
        .finish_dave_media(
            test_pending_frame(9, 2),
            Err(failure()),
            true,
            now(),
            true,
            &mut reports,
        )
        .is_none());
    assert_eq!(pipeline.state.pending_dave_media().len(), 1);
    assert!(matches!(
        pipeline.finish_dave_media(
            test_pending_frame(9, 3),
            Err(failure()),
            false,
            now(),
            true,
            &mut reports,
        ),
        Some(Err(Error::Dave(_)))
    ));
}

#[test]
fn waiting_receives_are_served_in_order() {
    let mut receives = UdpPacketReceives::new();
    receives.push(LowLevelReceiveKind::RawUdp, 1, 2);
    receives.push(LowLevelReceiveKind::RawUdp, 2, 1200);
    receives.push(LowLevelReceiveKind::RtpUdp, 3, 1200);
    let rtcp = [0x81, 201, 0, 1, 0, 0, 0, 9];
    let given = receives.resolve(RawUdpPacketInfo::from_bytes(&rtcp), &rtcp);
    assert_eq!(given.len(), 1);
    assert_eq!(given[0].0, 1);
    assert!(matches!(
        given[0].1,
        Err(Error::PayloadTooLarge {
            kind: PayloadKind::RawUdpPacket,
            len: 8,
            max_len: 2,
        })
    ));
    receives.discard(LowLevelReceiveKind::RawUdp, &HashSet::from([2]));
    assert_eq!(receives.pop(LowLevelReceiveKind::RawUdp), None);
    assert_eq!(receives.take_all(LowLevelReceiveKind::RtpUdp), vec![3]);
}

#[test]
fn sources_are_served_first_come_first_served() {
    let mut events = Vec::new();
    let mut receive = test_receive_state();
    for (ssrc, seqs) in [(8, vec![1, 3, 4, 2]), (7, vec![1, 3, 2])] {
        for seq in seqs {
            let _ = receive
                .push_media_packet(test_pending_media(ssrc, seq), now(), true, &mut events)
                .ok()
                .unwrap();
        }
    }
    let mut order = Vec::new();
    while let Some(frame) = receive
        .drain_ordered_media(now(), true, &mut events)
        .ok()
        .unwrap()
    {
        order.push((frame.rtp.ssrc, frame.rtp.seq));
    }
    assert_eq!(order, vec![(8, 3), (7, 3), (8, 4)]);
}

#[test]
fn forgotten_sources_leave_the_line() {
    let mut events = Vec::new();
    let mut receive = test_receive_state();
    for ssrc in [8, 7] {
        for seq in [1, 3, 2] {
            let _ = receive
                .push_media_packet(test_pending_media(ssrc, seq), now(), true, &mut events)
                .ok()
                .unwrap();
        }
    }
    receive.prune_ssrcs(&HashSet::from([8]));
    let frame = receive
        .drain_ordered_media(now(), true, &mut events)
        .ok()
        .unwrap()
        .unwrap();
    assert_eq!((frame.rtp.ssrc, frame.rtp.seq), (7, 3));
    assert!(receive
        .drain_ordered_media(now(), true, &mut events)
        .ok()
        .unwrap()
        .is_none());
}

#[test]
fn expired_media_is_reported_in_the_order_of_its_deadlines() {
    let mut state = test_state();
    state.dave.set_session_protocol(Some(1));
    let mut reports = ReceiveReports::new();
    let mut pipeline = ReceivePipeline::<NoRawPackets>::new(ConnectionTuning::default());
    let later = now().plus(Duration::from_millis(1));
    for (ssrc, enqueued_at) in [(9, later), (5, now())] {
        let media = test_pending_frame_enqueued(
            ssrc,
            1,
            enqueued_at,
            DavePendingMediaReason::DecryptStatePending,
        );
        pipeline.sort_media(media, &state, None, false, now(), true, &mut reports);
    }
    let ttl = ConnectionTuning::default().dave_pending_media_ttl;
    pipeline.expire_pending_dave_media(later.plus(ttl), true, &mut reports);
    let told: Vec<_> = reports
        .pending_dropped
        .iter()
        .map(|event| (event.ssrc, event.pending_packets, event.reason))
        .collect();
    assert_eq!(
        told,
        vec![
            (5, 1, DavePendingMediaReason::Expired),
            (9, 0, DavePendingMediaReason::Expired),
        ]
    );
}

#[test]
fn media_is_collected_step_by_step() {
    let mut state = test_state();
    state.dave.set_session_protocol(Some(1));
    let mut reports = ReceiveReports::new();
    let mut pipeline = ReceivePipeline::<NoRawPackets>::new(ConnectionTuning::default());
    let closed = MediaMoment {
        transition_ready: None,
        session_ready: false,
        now: now(),
        telemetry: true,
    };
    let open = MediaMoment {
        session_ready: true,
        ..closed
    };
    assert!(matches!(
        pipeline.collect_step(&state, closed, &mut reports),
        FrameStep::Done
    ));
    let step = pipeline.take_result(
        Ok(Some(test_pending_frame(9, 1))),
        &state,
        closed,
        &mut reports,
    );
    assert!(matches!(step, FrameStep::Again));
    assert_eq!(pipeline.state.pending_dave_media().len(), 1);
    let retry = DavePendingMediaRetry::dave_state();
    assert!(matches!(
        pipeline.retry_step(retry, &state, closed, &mut reports),
        FrameStep::Again
    ));
    assert!(matches!(
        pipeline.retry_step(DavePendingMediaRetry::none(), &state, open, &mut reports),
        FrameStep::Done
    ));
    assert_eq!(pipeline.state.pending_dave_media().len(), 1);
    let media = match pipeline.retry_step(retry, &state, open, &mut reports) {
        FrameStep::Decrypt(media) => media,
        _ => panic!("the session has nothing to decrypt"),
    };
    assert_eq!(media.user_id, Some(77));
    pipeline.take_decrypted(media, Ok(b"plain".to_vec()), &state, open, &mut reports);
    assert_eq!(reports.pending_drained.len(), 1);
    assert!(matches!(
        pipeline.retry_step(retry, &state, open, &mut reports),
        FrameStep::Done
    ));
    let frame = pipeline.ready_frames.pop_front().unwrap();
    assert_eq!(frame.ok().unwrap().frame, b"plain");
    let step = pipeline.take_result(Err(Error::Closed), &state, open, &mut reports);
    assert!(matches!(step, FrameStep::Again));
    assert!(matches!(
        pipeline.ready_frames.pop_front(),
        Some(Err(Error::Closed))
    ));
}

#[test]
fn full_queues_drop_the_oldest_frame_with_a_report() {
    let tuning = ConnectionTuning {
        ready_frame_buffer_max: 1,
        ..ConnectionTuning::default()
    };
    let mut reports = ReceiveReports::new();
    let mut pipeline = ReceivePipeline::<NoRawPackets>::new(tuning);
    pipeline.queue_frame(Ok(test_received_frame_with_ssrc(5, 1)), true, &mut reports);
    pipeline.queue_frame(Ok(test_received_frame_with_ssrc(5, 2)), true, &mut reports);
    assert_eq!(reports.frames_dropped.len(), 1);
    assert_eq!(reports.frames_dropped[0].seq, Some(1));
    assert_eq!(pipeline.ready_frames.len(), 1);
}

#[test]
fn received_frames_are_called_audio() {
    let state = test_state();
    let mut reports = ReceiveReports::new();
    let mut pipeline = ReceivePipeline::<NoRawPackets>::new(ConnectionTuning::default());
    let mut media = test_pending_frame(9, 1);
    media.dave = false;
    media.codec = Codec::Vp8;
    let turn = pipeline.sort_media(media, &state, None, false, now(), true, &mut reports);
    match turn {
        MediaTurn::Ready(frame) => {
            assert_eq!(frame.codec, Codec::Vp8);
            assert_eq!(frame.media_type, MediaType::Audio);
        }
        _ => panic!("the frame is not ready"),
    }
}
