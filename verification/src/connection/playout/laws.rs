//! What holds of playing as a whole.

use super::active::{catch_up, MediaGate, PlayoutMove, PlayoutView, FRAME_NANOS, STALE_NANOS};
use super::report::PlayoutReport;
use super::slot::{next_id, PlayoutAction, PlayoutAnswer, PlayoutCommand, SlotView};
use crate::media::OutboundPacket;
use crate::time::{Duration, Instant};
use vstd::prelude::*;

verus! {

/// Packets are left out only where they are late by three packets, and never the last one.
/// What is left is less than three packets late, or is a single packet. The packet that
/// comes is due as many packets later as were left out.
pub proof fn law_only_stale_packets_are_left_out(due_at: Instant, now: Instant, waiting: nat)
    requires
        waiting > 0,
        now.nanos >= due_at.nanos,
    ensures
        ({
            let plan = catch_up(due_at, now, waiting);
            &&& plan.dropped < waiting
            &&& plan.due_at.nanos == due_at.nanos + plan.dropped * FRAME_NANOS
            &&& plan.due_at.nanos <= now.nanos
            &&& now.nanos - due_at.nanos < STALE_NANOS ==> plan.dropped == 0
            &&& now.nanos - plan.due_at.nanos < STALE_NANOS || plan.dropped + 1 == waiting
            &&& plan.dropped > 0 ==> now.nanos - plan.due_at.nanos >= STALE_NANOS - FRAME_NANOS
        }),
    decreases waiting,
{
    if now.elapsed_since(due_at).nanos >= STALE_NANOS && waiting > 1 {
        let next = due_at.later(Duration { nanos: FRAME_NANOS });
        law_only_stale_packets_are_left_out(next, now, (waiting - 1) as nat);
        let rest = catch_up(next, now, (waiting - 1) as nat);
        assert((rest.dropped + 1) * FRAME_NANOS == rest.dropped * FRAME_NANOS + FRAME_NANOS)
            by (nonlinear_arith);
    } else {
        assert(0 * FRAME_NANOS == 0);
    }
}

/// Packets go out in the order that they came in: the next one is the first that waits, but
/// for those that are left out, and the others stay as they are.
pub proof fn law_packets_keep_their_order<R>(
    playout: PlayoutView<R>,
    now: Instant,
    gate: MediaGate,
)
    requires
        playout.frames.len() > 0,
    ensures
        ({
            let (planned, after) = playout.planned(now, gate);
            &&& exists|dropped: int|
                0 <= dropped < playout.frames.len() && after.frames == #[trigger] playout.frames.skip(
                    dropped,
                )
            &&& planned is Send ==> after.frames.len() > 0
            &&& planned is Complete ==> false
        }),
{
    assert(playout.frames.skip(0) =~= playout.frames);
    if now.nanos >= playout.due(now).nanos {
        law_only_stale_packets_are_left_out(playout.due(now), now, playout.frames.len());
    }
}

/// Nothing is sent before it is due, nor while the session that has to be ready is not.
pub proof fn law_nothing_is_sent_early<R>(playout: PlayoutView<R>, now: Instant, gate: MediaGate)
    ensures
        playout.planned(now, gate).0 matches PlayoutMove::Send { due_at, announce } ==> {
            &&& playout.frames.len() > 0
            &&& playout.due(now).nanos <= due_at.nanos <= now.nanos
            &&& !gate.requires_dave || gate.media_ready
            &&& announce == !playout.speaking
        },
{
    if playout.frames.len() > 0 && now.nanos >= playout.due(now).nanos {
        law_only_stale_packets_are_left_out(playout.due(now), now, playout.frames.len());
    }
}

/// A session that is not ready is waited for as long as was said, and no longer.
pub proof fn law_waiting_for_the_session_ends<R>(
    playout: PlayoutView<R>,
    first: Instant,
    later: Instant,
    gate: MediaGate,
)
    requires
        playout.frames.len() > 0,
        playout.media_ready_deadline is None,
        first.nanos >= playout.due(first).nanos,
        gate.requires_dave,
        !gate.media_ready,
        first.nanos + gate.timeout.nanos <= later.nanos,
    ensures
        ({
            let (_, waiting) = playout.planned(first, gate);
            waiting.planned(later, gate).0 == (PlayoutMove::Expire { timeout: gate.timeout })
        }),
{
    law_only_stale_packets_are_left_out(playout.due(first), first, playout.frames.len());
    let (_, waiting) = playout.planned(first, gate);
    assert(waiting.frames.len() > 0);
    assert(waiting.next_send_at == playout.next_send_at);
}

/// Where packets are on time, they follow each other every 20 ms.
pub proof fn law_packets_follow_each_other<R>(
    playout: PlayoutView<R>,
    now: Instant,
    gate: MediaGate,
    send_started: Instant,
    sent_at: Instant,
    packet: OutboundPacket,
)
    requires
        playout.frames.len() > 0,
        playout.next_send_at matches Some(due) && due.nanos <= now.nanos
            && now.nanos - due.nanos < STALE_NANOS && due.nanos + FRAME_NANOS <= u128::MAX,
        !gate.requires_dave || gate.media_ready,
    ensures
        ({
            let (planned, after) = playout.planned(now, gate);
            let due = playout.due(now);
            &&& planned == (PlayoutMove::Send { due_at: due, announce: !playout.speaking })
            &&& after.frames == playout.frames
            &&& after.begun(send_started).sent(due, send_started, sent_at, packet).next_send_at
                == Some(Instant { nanos: (due.nanos + FRAME_NANOS) as u128 })
        }),
{
    law_only_stale_packets_are_left_out(playout.due(now), now, playout.frames.len());
    assert(playout.frames.skip(0) =~= playout.frames);
}

/// When playing is over, whoever was announced as speaking no longer is.
pub proof fn law_speaking_stops_with_playing<R>(slot: SlotView<R>, now: Instant, gate: MediaGate)
    ensures
        slot.resolved(now, gate).0 matches PlayoutAction::End(end) ==> {
            &&& slot.resolved(now, gate).1.active is None
            &&& slot.active matches Some(playout) && end.stop_speaking == playout.speaking
        },
{
}

/// No two that are played one after the other have the same number, and none has zero.
pub proof fn law_numbers_follow_each_other(id: u64)
    requires
        id != 0,
    ensures
        next_id(id) != 0,
        next_id(id) != id,
{
}

/// A packet lasts 20 ms, as long as its samples do, and is stale when three others could have
/// been played in its place.
pub proof fn law_packets_last_as_long_as_their_samples()
    ensures
        FRAME_NANOS * 48_000 == 960 * 1_000_000_000,
        STALE_NANOS == 3 * FRAME_NANOS,
{
}

/// Playing is over when its end was asked for, no packet is left, and the last one has lasted
/// its time; and not before.
pub proof fn law_playing_ends_when_all_is_played<R>(
    playout: PlayoutView<R>,
    now: Instant,
    gate: MediaGate,
)
    ensures
        playout.planned(now, gate).0 is Complete <==> {
            &&& playout.finish_response is Some
            &&& playout.frames.len() == 0
            &&& !(playout.next_send_at matches Some(due) && now.nanos < due.nanos)
        },
        playout.planned(now, gate).0 is Expire ==> playout.frames.len() > 0 && gate.requires_dave
            && !gate.media_ready,
        playout.planned(now, gate).1.finish_response == playout.finish_response,
        playout.planned(now, gate).1.id == playout.id,
        playout.planned(now, gate).1.started_at == playout.started_at,
{
}

/// A packet that waits and is due is sent, unless the session that has to be ready is not.
pub proof fn law_due_packets_are_sent<R>(playout: PlayoutView<R>, now: Instant, gate: MediaGate)
    requires
        playout.frames.len() > 0,
        !gate.requires_dave || gate.media_ready,
    ensures
        playout.planned(now, gate).0 is Send <==> !(playout.next_send_at matches Some(due)
            && now.nanos < due.nanos),
        playout.planned(now, gate).0 is Send ==> playout.planned(now, gate).1.media_ready_deadline
            is None,
        playout.next_send_at is None ==> playout.planned(now, gate).0 == (PlayoutMove::Send {
            due_at: now,
            announce: !playout.speaking,
        }) && playout.planned(now, gate).1.frames == playout.frames,
{
    if playout.next_send_at is None {
        assert(catch_up(now, now, playout.frames.len()).dropped == 0);
        assert(playout.frames.skip(0) =~= playout.frames);
    }
}

/// Sending takes the first packet, and announces the speaker; once it was sent, the next is
/// due 20 ms after it was. One more packet is counted, with its 20 ms; the first packet stays
/// the first, and this one is the last.
pub proof fn law_sent_packets_are_counted<R>(
    playout: PlayoutView<R>,
    due_at: Instant,
    started: Instant,
    now: Instant,
    packet: OutboundPacket,
)
    requires
        playout.frames.len() > 0,
        playout.stats.packets < usize::MAX,
        playout.stats.expected_media.nanos + 20_000_000 <= u128::MAX,
        due_at.nanos + 20_000_000 <= u128::MAX,
    ensures
        ({
            let after = playout.begun(started).sent(due_at, started, now, packet);
            &&& after.speaking
            &&& after.frames == playout.frames.subrange(1, playout.frames.len() as int)
            &&& after.next_send_at matches Some(next)
            &&& next.nanos == due_at.nanos + 20_000_000
            &&& after.stats.packets == playout.stats.packets + 1
            &&& after.stats.expected_media.nanos == playout.stats.expected_media.nanos + 20_000_000
            &&& after.stats.last_packet == Some(packet)
            &&& after.stats.first_packet == (if playout.stats.first_packet is Some {
                playout.stats.first_packet
            } else {
                Some(packet)
            })
            &&& after.stats.send_call.last() == now.elapsed_since(started)
            &&& playout.stats.last_send_started_at matches Some(before)
                ==> after.stats.inter_frame_gap.last() == started.elapsed_since(before)
            &&& playout.stats.last_send_started_at is None ==> after.stats.inter_frame_gap
                == playout.stats.inter_frame_gap
            &&& after.stats.last_send_started_at == Some(started)
        }),
{
}

/// Every time that a packet is late is kept, and counted as late from 5 ms on, and once more
/// from 20 ms on.
pub proof fn law_lateness_is_counted(report: PlayoutReport, lateness: Duration)
    requires
        report.late_wakes_over_5ms < usize::MAX,
        report.late_wakes_over_20ms < usize::MAX,
    ensures
        ({
            let after = report.late(lateness);
            &&& after.scheduler_lateness.last() == lateness
            &&& lateness.nanos >= 5 * 1_000_000 ==> after.late_wakes_over_5ms
                == report.late_wakes_over_5ms + 1
            &&& lateness.nanos < 5 * 1_000_000 ==> after.late_wakes_over_5ms
                == report.late_wakes_over_5ms
            &&& lateness.nanos >= 20 * 1_000_000 ==> after.late_wakes_over_20ms
                == report.late_wakes_over_20ms + 1
            &&& lateness.nanos < 20 * 1_000_000 ==> after.late_wakes_over_20ms
                == report.late_wakes_over_20ms
            &&& after.packets == report.packets && after.underflows == report.underflows
        }),
{
}

/// Where a packet should have been sent and none was there, that is counted once, with the
/// time that went by, and the next packet is due at once; in every other case the clock goes
/// on. Packets that come are put behind those that wait.
pub proof fn law_running_dry_is_noticed<R>(
    playout: PlayoutView<R>,
    frames: Seq<Seq<u8>>,
    now: Instant,
)
    requires
        playout.stats.underflows < usize::MAX,
    ensures
        ({
            let after = playout.pushed(frames, now);
            let dry = playout.frames.len() == 0 && playout.finish_response is None && (
            playout.next_send_at matches Some(due) && due.nanos < now.nanos);
            &&& after.frames == playout.frames + frames
            &&& dry ==> {
                &&& after.next_send_at is None
                &&& after.due(now) == now
                &&& after.stats.underflows == playout.stats.underflows + 1
                &&& after.stats.underflow_wait.last() == now.elapsed_since(playout.next_send_at->0)
            }
            &&& !dry ==> after.next_send_at == playout.next_send_at && after.stats == playout.stats
            &&& after.speaking == playout.speaking && after.id == playout.id
        }),
{
}

/// A packet that is stale though no other can be left out for it is sent at once, and the
/// clock starts anew with it; one that is not is due when it was. Packets that were left out
/// are counted.
pub proof fn law_the_clock_starts_anew<R>(playout: PlayoutView<R>, now: Instant)
    requires
        playout.frames.len() > 0,
        now.nanos >= playout.due(now).nanos,
        playout.stats.dropped_stale_frames + playout.frames.len() <= usize::MAX,
        playout.stats.clock_rebases < usize::MAX,
    ensures
        ({
            let (after, due_at) = playout.caught_up(now);
            let dropped = playout.frames.len() - after.frames.len();
            &&& after.stats.dropped_stale_frames == playout.stats.dropped_stale_frames + dropped
            &&& now.nanos - due_at.nanos < 60_000_000
            &&& after.stats.clock_rebases == playout.stats.clock_rebases + (if now.nanos - (
            playout.due(now).nanos + dropped * 20_000_000) >= 60_000_000 {
                1int
            } else {
                0
            })
            &&& after.stats.clock_rebases == playout.stats.clock_rebases ==> due_at.nanos
                == playout.due(now).nanos + dropped * 20_000_000
            &&& after.stats.clock_rebases != playout.stats.clock_rebases ==> due_at == now
        }),
{
    law_only_stale_packets_are_left_out(playout.due(now), now, playout.frames.len());
}

/// One playout at a time: while there is one no other starts, and without one the next number
/// is given out and a fresh one begins.
pub proof fn law_one_playout_at_a_time<S, R>(
    slot: SlotView<R>,
    response: S,
    now: Instant,
    dave_enabled: bool,
)
    ensures
        ({
            let (answer, after) = slot.handled(
                PlayoutCommand::<S, R>::Start { response },
                now,
                dave_enabled,
            );
            &&& slot.active is Some ==> answer is Refused && after == slot
            &&& slot.active is None ==> {
                &&& answer matches PlayoutAnswer::Started { id, .. }
                &&& id == slot.next_playout_id
                &&& after.active matches Some(playout)
                &&& playout.id == id
                &&& playout.frames.len() == 0
                &&& !playout.speaking
                &&& playout.started_at == now
                &&& after.next_playout_id != slot.next_playout_id || slot.next_playout_id == 0
            }
        }),
{
}

/// Commands reach the playout that they name, and no other: what is said to another number
/// changes nothing.
pub proof fn law_commands_reach_whom_they_name<S, R>(
    slot: SlotView<R>,
    command: PlayoutCommand<S, R>,
    id: u64,
    now: Instant,
    dave_enabled: bool,
)
    requires
        match command {
            PlayoutCommand::Start { .. } => false,
            PlayoutCommand::Frame { id: named, .. } => named == id,
            PlayoutCommand::Frames { id: named, .. } => named == id,
            PlayoutCommand::Finish { id: named, .. } => named == id,
            PlayoutCommand::Cancel { id: named } => named == id,
        },
    ensures
        ({
            let (answer, after) = slot.handled(command, now, dave_enabled);
            let reached = slot.active matches Some(playout) && playout.id == id;
            &&& !reached ==> after == slot
            &&& command is Finish && !reached ==> answer is Unknown
            &&& command is Finish && reached ==> (after.active matches Some(playout)
                && playout.finish_response is Some && playout.frames == slot.active->0.frames)
            &&& command is Cancel && reached ==> after.active is None && (answer matches
                PlayoutAnswer::Ended(end) && end.stop_speaking == slot.active->0.speaking
                && end.reply is Some == slot.active->0.finish_response is Some)
            &&& command matches PlayoutCommand::Frame { frame, .. } ==> (reached ==> (
            after.active matches Some(playout) && playout.frames == slot.active->0.frames.push(
                frame@,
            )))
            &&& after.next_playout_id == slot.next_playout_id
        }),
{
    if let PlayoutCommand::Frame { frame, .. } = command {
        if let Some(playout) = slot.active {
            assert(playout.frames + seq![frame@] =~= playout.frames.push(frame@));
        }
    }
}

/// A session that is not ready is given the time that was said: nobody gives up before, and
/// looking again does not give it more.
pub proof fn law_the_session_has_its_time<R>(
    playout: PlayoutView<R>,
    first: Instant,
    later: Instant,
    gate: MediaGate,
)
    requires
        playout.frames.len() > 0,
        playout.media_ready_deadline is None,
        first.nanos >= playout.due(first).nanos,
        gate.requires_dave,
        !gate.media_ready,
        first.nanos <= later.nanos < first.nanos + gate.timeout.nanos <= u128::MAX,
    ensures
        ({
            let (_, waiting) = playout.planned(first, gate);
            let (again, waited) = waiting.planned(later, gate);
            &&& playout.planned(first, gate).0 is Wait
            &&& again is Wait
            &&& waited.media_ready_deadline == waiting.media_ready_deadline
        }),
{
    law_only_stale_packets_are_left_out(playout.due(first), first, playout.frames.len());
    let (_, waiting) = playout.planned(first, gate);
    assert(waiting.frames.len() > 0);
    assert(waiting.next_send_at == playout.next_send_at);
}

} // verus!
