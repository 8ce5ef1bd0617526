//! Playing packets one after the other.

use cacophony::connection::playout::{
    ClosedReply, MediaGate, PlayoutAction, PlayoutAnswer, PlayoutCommand, PlayoutSlot,
};
use cacophony::errors::{BackpressureError, Error};
use cacophony::media::{OutboundPacket, RtpHeader, RtpSizeNonceSuffix};
use cacophony::opus::discord::{Packet, PacketBatch, PacketSink};
use cacophony::time::{Duration, Instant};
use cacophony::RtpPayloadType;

const OPUS_SILENCE: &[u8] = &[0xf8, 0xff, 0xfe];

fn at(millis: u64) -> Instant {
    Instant::from_nanos(1_000_000_000).plus(Duration::from_millis(millis))
}

fn open_gate() -> MediaGate {
    MediaGate {
        requires_dave: false,
        media_ready: false,
        timeout: Duration::from_secs(20),
    }
}

fn test_packet_batch(packet_count: usize) -> PacketBatch {
    let mut packets = PacketBatch::new();
    for _ in 0..packet_count {
        packets
            .encode_packet(|bytes: &mut Vec<u8>| {
                bytes.extend_from_slice(OPUS_SILENCE);
                Ok(OPUS_SILENCE.len())
            })
            .unwrap();
    }
    packets
}

fn packet(seq: u16) -> OutboundPacket {
    OutboundPacket {
        rtp: RtpHeader {
            version: 2,
            padding: false,
            extension: false,
            marker: false,
            payload_type: RtpPayloadType::new_const(120),
            seq,
            timestamp: 0,
            ssrc: 42,
            header_len: 12,
            encrypted_body_offset: 12,
        },
        nonce_suffix: RtpSizeNonceSuffix::from_be_bytes([0; 4]),
        payload_bytes: 3,
        packet_bytes: 35,
    }
}

type Command = PlayoutCommand<&'static str, &'static str>;

fn started(now: Instant) -> (PlayoutSlot<&'static str>, u64) {
    let mut slot = PlayoutSlot::new();
    let command: Command = PlayoutCommand::Start { response: "start" };
    match slot.handle_playout_command(command, now, false) {
        PlayoutAnswer::Started { response, id } => {
            assert_eq!(response, "start");
            (slot, id)
        }
        _ => panic!("an empty slot takes a playout"),
    }
}

fn push(slot: &mut PlayoutSlot<&'static str>, id: u64, count: usize, now: Instant) {
    let command: Command = PlayoutCommand::packet_batch(id, test_packet_batch(count)).unwrap();
    assert!(matches!(
        slot.handle_playout_command(command, now, false),
        PlayoutAnswer::Taken
    ));
}

fn send(slot: &mut PlayoutSlot<&'static str>, due_at: Instant, now: Instant, seq: u16) {
    let frame = slot.begin_send(now).unwrap();
    assert_eq!(frame.bytes(), OPUS_SILENCE);
    slot.send_succeeded(due_at, now, now, packet(seq));
}

#[test]
fn push_packet_batch_sends_one_batch_command() {
    let command: Command = PlayoutCommand::packet_batch(7, test_packet_batch(2)).unwrap();
    match command {
        PlayoutCommand::Frames { id, frames } => {
            assert_eq!(id, 7);
            assert_eq!(frames.len(), 2);
            assert!(frames.iter().all(|frame| frame.bytes() == OPUS_SILENCE));
            assert!(frames
                .iter()
                .all(|frame| frame.duration() == Duration::from_millis(20)));
        }
        _ => panic!("packet batch should be queued as one Frames command"),
    }
    let empty: Option<Command> = PlayoutCommand::packet_batch(7, test_packet_batch(0));
    assert!(empty.is_none());
}

#[test]
fn a_second_playout_is_refused() {
    let (mut slot, id) = started(at(0));
    assert_eq!(id, 1);
    let command: Command = PlayoutCommand::Start { response: "again" };
    assert!(matches!(
        slot.handle_playout_command(command, at(0), false),
        PlayoutAnswer::Refused {
            response: "again",
            error: Error::Backpressure(BackpressureError::ActiveOpusPlayout),
        }
    ));
}

#[test]
fn packets_leave_every_20_ms() {
    let (mut slot, id) = started(at(0));
    push(&mut slot, id, 2, at(0));
    let PlayoutAction::Send { due_at, announce } = slot.resolve_active_playout(at(1), open_gate())
    else {
        panic!("the first packet is due at once");
    };
    assert_eq!(due_at, at(1));
    assert!(announce);
    send(&mut slot, due_at, at(1), 1);
    assert!(matches!(
        slot.resolve_active_playout(at(20), open_gate()),
        PlayoutAction::Wait
    ));
    let PlayoutAction::Send { due_at, announce } =
        slot.resolve_active_playout(at(23), open_gate())
    else {
        panic!("the second packet is due");
    };
    assert_eq!(due_at, at(21));
    assert!(!announce);
    send(&mut slot, due_at, at(23), 2);
    let finish: Command = PlayoutCommand::Finish { id, response: "done" };
    assert!(matches!(
        slot.handle_playout_command(finish, at(24), false),
        PlayoutAnswer::Taken
    ));
    assert!(matches!(
        slot.resolve_active_playout(at(40), open_gate()),
        PlayoutAction::Wait
    ));
    let PlayoutAction::End(end) = slot.resolve_active_playout(at(41), open_gate()) else {
        panic!("all packets were played");
    };
    assert!(end.stop_speaking);
    let (response, stats) = end.reply.unwrap();
    let stats = stats.unwrap();
    assert_eq!(response, "done");
    assert_eq!(stats.packets, 2);
    assert_eq!(stats.first_packet, Some(packet(1)));
    assert_eq!(stats.last_packet, Some(packet(2)));
    assert_eq!(stats.expected_media, Duration::from_millis(40));
    assert_eq!(stats.wall_elapsed, Duration::from_millis(41));
    assert_eq!(stats.scheduler_lateness.max, Some(Duration::from_millis(2)));
    assert_eq!(stats.inter_frame_gap.max, Some(Duration::from_millis(22)));
    assert_eq!(stats.dropped_stale_frames, 0);
    assert_eq!(stats.underflows, 0);
}

#[test]
fn only_stale_packets_are_left_out() {
    let (mut slot, id) = started(at(0));
    push(&mut slot, id, 5, at(0));
    let PlayoutAction::Send { due_at, .. } = slot.resolve_active_playout(at(0), open_gate()) else {
        panic!("the first packet is due at once");
    };
    send(&mut slot, due_at, at(0), 1);
    // The packets due at 20 and 40 ms are late by three packets or more at 100 ms.
    let PlayoutAction::Send { due_at, .. } = slot.resolve_active_playout(at(100), open_gate())
    else {
        panic!("packets are due");
    };
    assert_eq!(due_at, at(60));
    assert_eq!(slot.active.as_ref().unwrap().frames.len(), 2);
    assert_eq!(slot.active.as_ref().unwrap().stats.dropped_stale_frames, 2);
}

#[test]
fn waiting_for_the_session_ends() {
    let gate = MediaGate {
        requires_dave: true,
        media_ready: false,
        timeout: Duration::from_millis(50),
    };
    let (mut slot, id) = started(at(0));
    push(&mut slot, id, 1, at(0));
    assert!(matches!(
        slot.resolve_active_playout(at(0), gate),
        PlayoutAction::Wait
    ));
    assert!(matches!(
        slot.resolve_active_playout(at(49), gate),
        PlayoutAction::Wait
    ));
    let PlayoutAction::End(end) = slot.resolve_active_playout(at(50), gate) else {
        panic!("the session was not ready in time");
    };
    assert!(!end.stop_speaking);
    assert!(end.reply.is_none());
    assert!(slot.active.is_none());
}

#[test]
fn cancelled_and_unknown_playouts_are_answered() {
    let (mut slot, id) = started(at(0));
    let finish: Command = PlayoutCommand::Finish { id: 99, response: "who" };
    assert!(matches!(
        slot.handle_playout_command(finish, at(0), false),
        PlayoutAnswer::Unknown { response: "who" }
    ));
    let finish: Command = PlayoutCommand::Finish { id, response: "me" };
    slot.handle_playout_command(finish, at(0), false);
    let cancel: Command = PlayoutCommand::Cancel { id };
    let PlayoutAnswer::Ended(end) = slot.handle_playout_command(cancel, at(0), false) else {
        panic!("the playout is under way");
    };
    assert!(matches!(end.reply, Some(("me", Err(Error::Closed)))));
}

#[test]
fn failed_sends_end_the_playout() {
    let (mut slot, id) = started(at(0));
    push(&mut slot, id, 1, at(0));
    slot.begin_send(at(0)).unwrap();
    let end = slot.send_failed(Error::Closed).unwrap();
    assert!(end.stop_speaking);
    assert!(slot.active.is_none());
    assert!(slot.send_failed(Error::Closed).is_none());
}

#[test]
fn underflows_are_counted() {
    let (mut slot, id) = started(at(0));
    push(&mut slot, id, 1, at(0));
    send(&mut slot, at(0), at(0), 1);
    push(&mut slot, id, 1, at(30));
    let playout = slot.active.as_ref().unwrap();
    assert_eq!(playout.stats.underflows, 1);
    assert_eq!(playout.next_send_at, None);
    assert_eq!(playout.wake_deadline(at(30)), Some(at(30)));
}

#[test]
fn numbers_follow_each_other() {
    let mut slot: PlayoutSlot<&'static str> = PlayoutSlot::new();
    slot.next_playout_id = u64::MAX;
    let start: Command = PlayoutCommand::Start { response: "last" };
    assert!(matches!(
        slot.handle_playout_command(start, at(0), false),
        PlayoutAnswer::Started { id: u64::MAX, .. }
    ));
    assert_eq!(slot.next_playout_id, 1);
}

#[test]
fn closed_commands_tell_who_waits() {
    let start: Command = PlayoutCommand::Start { response: "s" };
    assert!(matches!(start.complete_closed(), ClosedReply::Start("s")));
    let finish: Command = PlayoutCommand::Finish {
        id: 1,
        response: "f",
    };
    assert!(matches!(finish.complete_closed(), ClosedReply::Finish("f")));
    let packet = Packet::from_bytes(OPUS_SILENCE.to_vec()).unwrap();
    let frame: Command = PlayoutCommand::packet(1, packet);
    assert!(matches!(frame.complete_closed(), ClosedReply::Nobody));
}
