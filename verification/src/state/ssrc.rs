//! The packets of one source: putting them in order, waiting for those that are missing,
//! and giving up on them.

use super::config::ConnectionTuning;
use super::pending::{PendingMediaFrame, PendingMediaPacket};
use crate::errors::Error;
use crate::media::assembler::{pushed, put_back, FrameParts, RtpFrameAssembler};
use crate::media::FrameRaw;
use crate::observer::{ReceiveRtpEvent, ReceiveRtpPacketEvent, ReceiveRtpPacketLossEvent};
use crate::stats::{in_order, percentile_of, SlidingStats};
use crate::time::{duration_ms, duration_us, Duration, Instant};
use std::collections::HashMap;
use vstd::prelude::*;
use vstd::std_specs::hash::group_hash_axioms;

verus! {

broadcast use group_hash_axioms;

/// A packet that has not come, though later ones have.
#[derive(Clone, Copy, Debug, PartialEq, Eq, Structural)]
pub struct MissingRtpPacket {
    pub user_id: Option<u64>,
    pub detected_at: Instant,
}

/// The sequence number after `seq`; after the last comes the first.
pub open spec fn next_number(seq: u16) -> u16 {
    ((seq + 1) % 0x1_0000) as u16
}

/// How far `seq` is ahead of `expected`.
pub open spec fn ahead(expected: u16, seq: u16) -> int {
    (seq - expected) % 0x1_0000
}

/// Where a packet belongs.
pub enum Placement {
    /// It is the first, or the next.
    Next,
    /// It is so far ahead that what lies between is given up.
    Jump,
    /// It is ahead, and waits for what lies between.
    Early,
    /// It comes after it was given up, or twice.
    Late,
}

pub open spec fn placement(next_seq: Option<u16>, seq: u16, window: usize) -> Placement {
    match next_seq {
        None => Placement::Next,
        Some(expected) => {
            let forward = ahead(expected, seq);
            if forward == 0 {
                Placement::Next
            } else if forward >= 0x8000 {
                Placement::Late
            } else if forward > window {
                Placement::Jump
            } else {
                Placement::Early
            }
        },
    }
}

/// Whether a missing packet has been waited for long enough.
pub open spec fn overdue(missing: MissingRtpPacket, now: Instant, ttl: Duration) -> bool {
    now.nanos >= missing.detected_at.later(ttl).nanos
}

/// The missing packets in a row that are given up: how many, the first user that is known
/// of them, and which stay missing.
pub struct LossRun {
    pub count: nat,
    pub user_id: Option<u64>,
    pub left: Map<u16, MissingRtpPacket>,
}

pub open spec fn first_known(a: Option<u64>, b: Option<u64>) -> Option<u64> {
    match a {
        Some(id) => Some(id),
        None => b,
    }
}

/// The run of missing packets from `seq` on that is given up: those that are overdue, or
/// all of them by force.
pub open spec fn loss_run(
    missing: Map<u16, MissingRtpPacket>,
    seq: u16,
    now: Instant,
    ttl: Duration,
    force: bool,
    user_id: Option<u64>,
) -> LossRun
    decreases missing.dom().len(),
    when missing.dom().finite()
{
    if missing.dom().contains(seq) && (force || overdue(missing[seq], now, ttl)) {
        let rest = loss_run(
            missing.remove(seq),
            next_number(seq),
            now,
            ttl,
            force,
            first_known(user_id, missing[seq].user_id),
        );
        LossRun { count: rest.count + 1, user_id: rest.user_id, left: rest.left }
    } else {
        LossRun { count: 0, user_id, left: missing }
    }
}

/// The missing packets once those between `expected` and a packet that is `forward` ahead
/// are counted as missing, as of `now`; what was missing before stays as it was.
pub open spec fn with_missing(
    missing: Map<u16, MissingRtpPacket>,
    expected: u16,
    forward: int,
    packet: MissingRtpPacket,
) -> Map<u16, MissingRtpPacket>
    decreases forward,
{
    if forward <= 0 {
        missing
    } else {
        let before = with_missing(missing, expected, forward - 1, packet);
        let seq = ((expected + forward - 1) % 0x1_0000) as u16;
        if before.dom().contains(seq) {
            before
        } else {
            before.insert(seq, packet)
        }
    }
}

/// The packets of one source as a mathematical value.
pub struct SsrcView<Raw> where Raw: FrameRaw {
    pub next_seq: Option<u16>,
    pub missing: Map<u16, MissingRtpPacket>,
    pub buffered: Map<u16, PendingMediaPacket<Raw>>,
    pub under_way: Option<FrameParts<Raw::Packet>>,
    pub waiting: Seq<PendingMediaFrame<Raw>>,
}

impl<Raw> SsrcView<Raw> where Raw: FrameRaw {
    /// Whether something can be given out without waiting.
    pub open spec fn ready(self) -> bool {
        self.waiting.len() > 0 || (self.next_seq matches Some(seq) && self.buffered.dom().contains(
            seq,
        ))
    }

    /// When the packet that is waited for is given up.
    pub open spec fn deadline(self, ttl: Duration) -> Option<Instant> {
        match self.next_seq {
            Some(seq) => if self.missing.dom().contains(seq) {
                Some(self.missing[seq].detected_at.later(ttl))
            } else {
                None
            },
            None => None,
        }
    }

    /// The run that is given up at `now`.
    pub open spec fn run(self, now: Instant, ttl: Duration, force: bool) -> LossRun {
        match self.next_seq {
            Some(seq) => loss_run(self.missing, seq, now, ttl, force, None),
            None => LossRun { count: 0, user_id: None, left: self.missing },
        }
    }

    /// After the packets at the head that are missing are given up.
    pub open spec fn given_up(self, now: Instant, ttl: Duration, force: bool) -> SsrcView<Raw> {
        let run = self.run(now, ttl, force);
        if run.count == 0 {
            self
        } else {
            SsrcView {
                next_seq: Some(((self.next_seq->0 + run.count) % 0x1_0000) as u16),
                missing: run.left,
                ..self
            }
        }
    }

    /// What is reported of that.
    pub open spec fn loss(self, ssrc: u32, now: Instant, ttl: Duration, force: bool) -> Option<
        ReceiveRtpPacketLossEvent,
    > {
        let run = self.run(now, ttl, force);
        if run.count == 0 {
            None
        } else {
            let first = self.next_seq->0;
            Some(
                ReceiveRtpPacketLossEvent {
                    ssrc,
                    user_id: run.user_id,
                    first_seq: first,
                    last_seq: ((first + run.count - 1) % 0x1_0000) as u16,
                    missing_packets: if run.count > 0xffff {
                        0xffff
                    } else {
                        run.count as u16
                    },
                    age_ms: now.elapsed_since(self.missing[first].detected_at).in_ms(),
                },
            )
        }
    }

    /// With a packet that is ahead set aside, and what lies between counted as missing.
    pub open spec fn set_aside(self, packet: PendingMediaPacket<Raw>, now: Instant) -> SsrcView<
        Raw,
    > {
        let expected = self.next_seq->0;
        let seq = packet.rtp.seq;
        SsrcView {
            missing: with_missing(
                self.missing,
                expected,
                ahead(expected, seq),
                MissingRtpPacket { user_id: packet.user_id, detected_at: now },
            ),
            buffered: if self.buffered.dom().contains(seq) {
                self.buffered
            } else {
                self.buffered.insert(seq, packet)
            },
            ..self
        }
    }

    /// How much there is to give out or to give up.
    pub open spec fn weight(self) -> nat {
        self.waiting.len() + self.buffered.dom().len() + self.missing.dom().len()
    }
}

/// Whether giving a packet to the assembler turned `before` into `after`, where the order
/// is already that of `after`.
pub open spec fn delivered<Raw: FrameRaw>(
    before: SsrcView<Raw>,
    after: SsrcView<Raw>,
    packet: PendingMediaPacket<Raw>,
    now: Instant,
    result: Result<Option<PendingMediaFrame<Raw>>, Error>,
) -> bool {
    pushed(
        (before.under_way, before.waiting),
        (after.under_way, after.waiting),
        packet,
        now,
        result,
    )
}

/// Whether giving out what is ready turned `before` into `after`: a frame that waited, or
/// what comes of the next packet that was set aside.
pub open spec fn popped<Raw: FrameRaw>(
    before: SsrcView<Raw>,
    after: SsrcView<Raw>,
    now: Instant,
    result: Result<Option<PendingMediaFrame<Raw>>, Error>,
) -> bool {
    if before.waiting.len() > 0 {
        &&& result == Ok::<Option<PendingMediaFrame<Raw>>, Error>(Some(before.waiting[0]))
        &&& after == (SsrcView { waiting: before.waiting.drop_first(), ..before })
    } else if before.ready() {
        let seq = before.next_seq->0;
        &&& after.next_seq == Some(next_number(seq))
        &&& after.missing == before.missing.remove(seq)
        &&& after.buffered == before.buffered.remove(seq)
        &&& delivered(before, after, before.buffered[seq], now, result)
    } else {
        result == Ok::<Option<PendingMediaFrame<Raw>>, Error>(None) && after == before
    }
}

/// What is reported of a packet that came.
pub open spec fn arrival<Raw: FrameRaw>(
    packet: PendingMediaPacket<Raw>,
    interarrival: Option<u64>,
    window: Seq<u64>,
) -> ReceiveRtpPacketEvent {
    ReceiveRtpPacketEvent {
        ssrc: packet.rtp.ssrc,
        user_id: packet.user_id,
        seq: packet.rtp.seq,
        timestamp: packet.rtp.timestamp,
        payload_bytes: packet.encrypted_payload@.len() as usize,
        interarrival_us: interarrival,
        interarrival_p95_us: percentile_of(window, 95),
        interarrival_max_us: if window.len() == 0 {
            None
        } else {
            Some(in_order(window)[window.len() - 1])
        },
    }
}

/// The loss that is reported where what lies between is given up at once.
pub open spec fn jump_loss<Raw: FrameRaw>(expected: u16, packet: PendingMediaPacket<Raw>) ->
    ReceiveRtpPacketLossEvent {
    ReceiveRtpPacketLossEvent {
        ssrc: packet.rtp.ssrc,
        user_id: packet.user_id,
        first_seq: expected,
        last_seq: ((packet.rtp.seq - 1) % 0x1_0000) as u16,
        missing_packets: ahead(expected, packet.rtp.seq) as u16,
        age_ms: 0,
    }
}

/// Reports with one more, where they are wanted.
pub open spec fn reported(
    events: Seq<ReceiveRtpEvent>,
    telemetry: bool,
    loss: Option<ReceiveRtpPacketLossEvent>,
) -> Seq<ReceiveRtpEvent> {
    match loss {
        Some(loss) if telemetry => events.push(ReceiveRtpEvent::Loss(loss)),
        _ => events,
    }
}

/// The times between arrivals with one more; where as many are kept as may be, the oldest
/// goes.
pub open spec fn with_time(times: Seq<u64>, kept: usize, time: Option<u64>) -> Seq<u64> {
    match time {
        Some(time) if kept > 0 => if times.len() == kept {
            times.drop_first().push(time)
        } else {
            times.push(time)
        },
        _ => times,
    }
}

/// What taking a packet in does to the packets of its source.
pub open spec fn took<Raw: FrameRaw>(
    old_state: ReceiveSsrcState<Raw>,
    new_state: ReceiveSsrcState<Raw>,
    packet: PendingMediaPacket<Raw>,
    now: Instant,
    telemetry: bool,
    old_events: Seq<ReceiveRtpEvent>,
    new_events: Seq<ReceiveRtpEvent>,
    frame: Result<Option<PendingMediaFrame<Raw>>, Error>,
) -> bool {
    let window = old_state.limits().rtp_reorder_buffer_max_frames;
    let ttl = old_state.limits().rtp_reorder_ttl;
    let seq = packet.rtp.seq;
    let before = old_state@;
    let after = new_state@;
    let interarrival = old_state.interarrival_at(now);
    let told = if telemetry {
        old_events.push(
            ReceiveRtpEvent::Packet(arrival(packet, interarrival, new_state.times())),
        )
    } else {
        old_events
    };
    &&& new_state.limits() == old_state.limits()
    &&& new_state.times_kept() == old_state.times_kept()
    &&& new_state.arrived_at() == (if telemetry {
        Some(now)
    } else {
        old_state.arrived_at()
    })
    &&& new_state.times() == (if telemetry {
        with_time(old_state.times(), old_state.times_kept(), interarrival)
    } else {
        old_state.times()
    })
    &&& match placement(before.next_seq, seq, window) {
        Placement::Next => {
            &&& after.next_seq == Some(next_number(seq))
            &&& after.missing == before.missing_after(seq)
            &&& after.buffered == before.buffered_after(seq)
            &&& delivered(before, after, packet, now, frame)
            &&& new_events == told
        },
        Placement::Jump => {
            &&& after.next_seq == Some(next_number(seq))
            &&& after.missing == Map::<u16, MissingRtpPacket>::empty()
            &&& after.buffered == Map::<u16, PendingMediaPacket<Raw>>::empty()
            &&& delivered(before, after, packet, now, frame)
            &&& new_events == reported(
                told,
                telemetry,
                Some(jump_loss(before.next_seq->0, packet)),
            )
        },
        Placement::Early => {
            let aside = before.set_aside(packet, now);
            let full = aside.buffered.dom().len() > window;
            let freed = if full {
                aside.given_up(now, ttl, true)
            } else {
                aside
            };
            &&& popped(freed, after, now, frame)
            &&& new_events == reported(
                told,
                telemetry,
                if full {
                    aside.loss(packet.rtp.ssrc, now, ttl, true)
                } else {
                    None
                },
            )
        },
        Placement::Late => {
            &&& after == before
            &&& frame == Ok::<Option<PendingMediaFrame<Raw>>, Error>(None)
            &&& new_events == told
        },
    }
}

/// The packets of one source.
pub struct ReceiveSsrcState<Raw> where Raw: FrameRaw {
    tuning: ConnectionTuning,
    last_arrival: Option<Instant>,
    next_seq: Option<u16>,
    missing: HashMap<u16, MissingRtpPacket>,
    pending_media: HashMap<u16, PendingMediaPacket<Raw>>,
    interarrival: SlidingStats<u64>,
    assembler: RtpFrameAssembler<Raw>,
}

impl<Raw> View for ReceiveSsrcState<Raw> where Raw: FrameRaw {
    type V = SsrcView<Raw>;

    closed spec fn view(&self) -> SsrcView<Raw> {
        SsrcView {
            next_seq: self.next_seq,
            missing: self.missing@,
            buffered: self.pending_media@,
            under_way: self.assembler.under_way(),
            waiting: self.assembler.waiting(),
        }
    }
}

impl<Raw> ReceiveSsrcState<Raw> where Raw: FrameRaw {
    pub closed spec fn limits(self) -> ConnectionTuning {
        self.tuning
    }

    /// The times between arrivals, in microseconds.
    pub closed spec fn times(self) -> Seq<u64> {
        self.interarrival@
    }

    pub closed spec fn times_kept(self) -> usize {
        self.interarrival.window()
    }

    pub closed spec fn arrived_at(self) -> Option<Instant> {
        self.last_arrival
    }

    /// Only so many packets are missing or set aside.
    pub proof fn lemma_finite(self)
        ensures
            self@.missing.dom().finite(),
            self@.buffered.dom().finite(),
    {
    }

    /// Whether the arrival times are those of `other`.
    pub open spec fn same_times(self, other: Self) -> bool {
        &&& self.limits() == other.limits()
        &&& self.times() == other.times()
        &&& self.times_kept() == other.times_kept()
        &&& self.arrived_at() == other.arrived_at()
    }

    pub fn new(tuning: ConnectionTuning) -> (state: Self)
        ensures
            state@ == (SsrcView::<Raw> {
                next_seq: None,
                missing: Map::empty(),
                buffered: Map::empty(),
                under_way: None,
                waiting: seq![],
            }),
            state.limits() == tuning,
            state.times().len() == 0,
            state.times_kept() == tuning.receive_interarrival_window,
            state.arrived_at() is None,
    {
        let state = ReceiveSsrcState {
            tuning,
            last_arrival: None,
            next_seq: None,
            missing: HashMap::new(),
            pending_media: HashMap::new(),
            interarrival: SlidingStats::new(tuning.receive_interarrival_window),
            assembler: RtpFrameAssembler::new(),
        };
        assert(state.assembler.waiting() =~= seq![]);
        state
    }

    fn deliver(&mut self, packet: PendingMediaPacket<Raw>, now: Instant) -> (frame: Result<
        Option<PendingMediaFrame<Raw>>,
        Error,
    >)
        ensures
            final(self)@.next_seq == Some(next_number(packet.rtp.seq)),
            final(self)@.missing == old(self)@.missing,
            final(self)@.buffered == old(self)@.buffered,
            delivered(old(self)@, final(self)@, packet, now, frame),
            final(self).same_times(*old(self)),
    {
        self.next_seq = Some(packet.rtp.seq.wrapping_add(1));
        self.assembler.push_packet(packet, now)
    }

    /// Takes a packet in, and gives out the frame that is done first, if one is. A packet
    /// that is next goes to the assembler; one that is ahead waits, and where too many
    /// wait, what is missing before them is given up; one that is too far ahead ends the
    /// waiting; one that comes late is dropped.
    pub fn push_media_packet(
        &mut self,
        packet: PendingMediaPacket<Raw>,
        now: Instant,
        telemetry: bool,
        events: &mut Vec<ReceiveRtpEvent>,
    ) -> (frame: Result<Option<PendingMediaFrame<Raw>>, Error>)
        ensures
            took(
                *old(self),
                *final(self),
                packet,
                now,
                telemetry,
                old(events)@,
                final(events)@,
                frame,
            ),
    {
        self.record_arrival(&packet, now, telemetry, events);
        let ssrc: u32 = packet.rtp.ssrc;
        let seq: u16 = packet.rtp.seq;
        let expected: u16 = match self.next_seq {
            Some(expected) => expected,
            None => {
                return self.deliver(packet, now);
            },
        };
        let forward: u16 = seq.wrapping_sub(expected);
        assert(forward == ahead(expected, seq));
        if forward == 0 {
            let _ = self.missing.remove(&seq);
            let _ = self.pending_media.remove(&seq);
            return self.deliver(packet, now);
        }
        if forward >= 0x8000 {
            return Ok(None);
        }
        if forward as usize > self.tuning.rtp_reorder_buffer_max_frames {
            if telemetry {
                events.push(
                    ReceiveRtpEvent::Loss(
                        ReceiveRtpPacketLossEvent {
                            ssrc,
                            user_id: packet.user_id,
                            first_seq: expected,
                            last_seq: seq.wrapping_sub(1),
                            missing_packets: forward,
                            age_ms: 0,
                        },
                    ),
                );
            }
            self.missing.clear();
            self.pending_media.clear();
            return self.deliver(packet, now);
        }
        self.mark_missing(expected, forward, packet.user_id, now);
        if !self.pending_media.contains_key(&seq) {
            let _ = self.pending_media.insert(seq, packet);
        }
        if self.pending_media.len() > self.tuning.rtp_reorder_buffer_max_frames {
            let _ = self.expire_missing_head(ssrc, now, true, telemetry, events);
        }
        self.pop_ready_buffered_frame(now)
    }

    /// The time since the last packet, in microseconds.
    pub open spec fn interarrival_at(self, now: Instant) -> Option<u64> {
        match self.arrived_at() {
            Some(last) => Some(now.elapsed_since(last).in_us()),
            None => None,
        }
    }

    fn record_arrival(
        &mut self,
        packet: &PendingMediaPacket<Raw>,
        now: Instant,
        telemetry: bool,
        events: &mut Vec<ReceiveRtpEvent>,
    )
        ensures
            final(self)@ == old(self)@,
            final(self).limits() == old(self).limits(),
            final(self).times_kept() == old(self).times_kept(),
            final(self).arrived_at() == (if telemetry {
                Some(now)
            } else {
                old(self).arrived_at()
            }),
            final(events)@ == (if telemetry {
                old(events)@.push(
                    ReceiveRtpEvent::Packet(
                        arrival(*packet, old(self).interarrival_at(now), final(self).times()),
                    ),
                )
            } else {
                old(events)@
            }),
            final(self).times() == (if telemetry {
                with_time(
                    old(self).times(),
                    old(self).times_kept(),
                    old(self).interarrival_at(now),
                )
            } else {
                old(self).times()
            }),
    {
        if !telemetry {
            return;
        }
        let interarrival_us: Option<u64> = match self.last_arrival {
            Some(last) => Some(duration_us(now.since(last))),
            None => None,
        };
        if let Some(interarrival) = interarrival_us {
            self.record_interarrival(interarrival);
        }
        self.last_arrival = Some(now);
        let interarrival_p95_us = self.interarrival_p95_us();
        let interarrival_max_us = self.interarrival_max_us();
        events.push(
            ReceiveRtpEvent::Packet(
                ReceiveRtpPacketEvent {
                    ssrc: packet.rtp.ssrc,
                    user_id: packet.user_id,
                    seq: packet.rtp.seq,
                    timestamp: packet.rtp.timestamp,
                    payload_bytes: packet.encrypted_payload.len(),
                    interarrival_us,
                    interarrival_p95_us,
                    interarrival_max_us,
                },
            ),
        );
    }

    fn mark_missing(
        &mut self,
        expected: u16,
        forward: u16,
        user_id: Option<u64>,
        detected_at: Instant,
    )
        ensures
            final(self)@ == (SsrcView {
                missing: with_missing(
                    old(self)@.missing,
                    expected,
                    forward as int,
                    MissingRtpPacket { user_id, detected_at },
                ),
                ..old(self)@
            }),
            final(self).same_times(*old(self)),
    {
        let ghost before = *self;
        let mut offset: u16 = 0;
        while offset < forward
            invariant
                offset <= forward,
                self@ == (SsrcView {
                    missing: with_missing(
                        before@.missing,
                        expected,
                        offset as int,
                        MissingRtpPacket { user_id, detected_at },
                    ),
                    ..before@
                }),
                self.same_times(before),
            decreases forward - offset,
        {
            let seq: u16 = expected.wrapping_add(offset);
            if !self.missing.contains_key(&seq) {
                let _ = self.missing.insert(seq, MissingRtpPacket { user_id, detected_at });
            }
            offset = offset + 1;
        }
    }

    pub fn has_ready_buffered_media(&self) -> (ready: bool)
        ensures
            ready == self@.ready(),
    {
        if self.assembler.has_completed_frame() {
            return true;
        }
        match self.next_seq {
            Some(seq) => self.pending_media.contains_key(&seq),
            None => false,
        }
    }

    /// Gives out a frame that waits, or what comes of the next packet that was set aside.
    pub fn pop_ready_buffered_frame(&mut self, now: Instant) -> (frame: Result<
        Option<PendingMediaFrame<Raw>>,
        Error,
    >)
        ensures
            popped(old(self)@, final(self)@, now, frame),
            final(self).same_times(*old(self)),
    {
        if self.assembler.has_completed_frame() {
            let ghost waiting = self.assembler.waiting();
            let frame = self.assembler.pop_completed();
            proof {
                assert(put_back(frame, self.assembler.waiting()) == waiting);
                let rest = self.assembler.waiting();
                assert((seq![frame->0] + rest)[0] == frame->0);
                assert((seq![frame->0] + rest).drop_first() =~= rest);
            }
            return Ok(frame);
        }
        let seq: u16 = match self.next_seq {
            Some(seq) => seq,
            None => {
                return Ok(None);
            },
        };
        match self.pending_media.remove(&seq) {
            Some(packet) => {
                let _ = self.missing.remove(&seq);
                self.next_seq = Some(seq.wrapping_add(1));
                self.assembler.push_packet(packet, now)
            },
            None => {
                assert(self.pending_media@ =~= old(self).pending_media@);
                Ok(None)
            },
        }
    }

    /// When the packet that is waited for is given up.
    pub fn pending_reorder_deadline(&self) -> (deadline: Option<Instant>)
        ensures
            deadline == self@.deadline(self.limits().rtp_reorder_ttl),
    {
        match self.next_seq {
            Some(seq) => match self.missing.get(&seq) {
                Some(missing) => Some(missing.detected_at.plus(self.tuning.rtp_reorder_ttl)),
                None => None,
            },
            None => None,
        }
    }

    /// Gives up the packets at the head that are missing: those that are overdue, or by
    /// force all of them. Says whether there were any.
    pub fn expire_missing_head(
        &mut self,
        ssrc: u32,
        now: Instant,
        force: bool,
        telemetry: bool,
        events: &mut Vec<ReceiveRtpEvent>,
    ) -> (expired: bool)
        ensures
            final(self)@ == old(self)@.given_up(now, old(self).limits().rtp_reorder_ttl, force),
            final(self).same_times(*old(self)),
            final(events)@ == reported(
                old(events)@,
                telemetry,
                old(self)@.loss(ssrc, now, old(self).limits().rtp_reorder_ttl, force),
            ),
            expired == (old(self)@.run(now, old(self).limits().rtp_reorder_ttl, force).count > 0),
    {
        let ghost before = *self;
        let ttl = self.tuning.rtp_reorder_ttl;
        let first_seq: u16 = match self.next_seq {
            Some(seq) => seq,
            None => {
                return false;
            },
        };
        let detected_at = match self.missing.get(&first_seq) {
            Some(missing) => missing.detected_at,
            None => {
                return false;
            },
        };
        let ghost whole = loss_run(before.missing@, first_seq, now, ttl, force, None);
        let mut seq: u16 = first_seq;
        let mut last_seq: u16 = first_seq;
        let mut user_id: Option<u64> = None;
        let mut missing_packets: u16 = 0;
        let ghost mut count: nat = 0;
        loop
            invariant_except_break
                ({
                    let rest = loss_run(self.missing@, seq, now, ttl, force, user_id);
                    &&& whole.count == count + rest.count
                    &&& whole.user_id == rest.user_id
                    &&& whole.left == rest.left
                }),
            invariant
                self.next_seq == before.next_seq,
                self.pending_media == before.pending_media,
                self.assembler == before.assembler,
                self.same_times(before),
                ttl == before.tuning.rtp_reorder_ttl,
                seq == (first_seq + count) % 0x1_0000,
                count > 0 ==> last_seq == (first_seq + count - 1) % 0x1_0000,
                missing_packets == (if count > 0xffff {
                    0xffff
                } else {
                    count as int
                }),
            ensures
                whole.count == count,
                whole.user_id == user_id,
                whole.left == self.missing@,
            decreases self.missing@.dom().len(),
        {
            let missing: MissingRtpPacket = match self.missing.get(&seq) {
                Some(missing) => *missing,
                None => {
                    break;
                },
            };
            if !force && !now.reached(missing.detected_at.plus(ttl)) {
                break;
            }
            user_id = match user_id {
                Some(id) => Some(id),
                None => missing.user_id,
            };
            let _ = self.missing.remove(&seq);
            last_seq = seq;
            missing_packets = missing_packets.saturating_add(1);
            seq = seq.wrapping_add(1);
            proof {
                count = count + 1;
            }
        }
        if missing_packets == 0 {
            return false;
        }
        self.next_seq = Some(seq);
        if telemetry {
            events.push(
                ReceiveRtpEvent::Loss(
                    ReceiveRtpPacketLossEvent {
                        ssrc,
                        user_id,
                        first_seq,
                        last_seq,
                        missing_packets,
                        age_ms: duration_ms(now.since(detected_at)),
                    },
                ),
            );
        }
        true
    }

    /// Takes a time between two arrivals in; where the window is full, the oldest goes.
    pub fn record_interarrival(&mut self, interarrival_us: u64)
        ensures
            final(self)@ == old(self)@,
            final(self).limits() == old(self).limits(),
            final(self).arrived_at() == old(self).arrived_at(),
            final(self).times_kept() == old(self).times_kept(),
            final(self).times() == with_time(
                old(self).times(),
                old(self).times_kept(),
                Some(interarrival_us),
            ),
    {
        self.interarrival.observe(interarrival_us);
    }

    pub fn interarrival_p95_us(&self) -> (time: Option<u64>)
        ensures
            time == percentile_of(self.times(), 95),
    {
        self.interarrival.percentile(95)
    }

    pub fn interarrival_max_us(&self) -> (time: Option<u64>)
        ensures
            time == (if self.times().len() == 0 {
                None
            } else {
                Some(in_order(self.times())[self.times().len() - 1])
            }),
    {
        self.interarrival.max()
    }

    /// How many times between arrivals are kept.
    pub fn interarrival_len(&self) -> (len: usize)
        ensures
            len == self.times().len(),
    {
        self.interarrival.len()
    }
}

impl<Raw> SsrcView<Raw> where Raw: FrameRaw {
    /// What is missing once a packet that was next has come.
    pub open spec fn missing_after(self, seq: u16) -> Map<u16, MissingRtpPacket> {
        if self.next_seq is Some {
            self.missing.remove(seq)
        } else {
            self.missing
        }
    }

    /// What is set aside once a packet that was next has come.
    pub open spec fn buffered_after(self, seq: u16) -> Map<u16, PendingMediaPacket<Raw>> {
        if self.next_seq is Some {
            self.buffered.remove(seq)
        } else {
            self.buffered
        }
    }
}

/// Whether every packet that was set aside is found under its own number.
pub open spec fn keyed<Raw: FrameRaw>(buffered: Map<u16, PendingMediaPacket<Raw>>) -> bool {
    forall|seq: u16|
        buffered.dom().contains(seq) ==> (#[trigger] buffered[seq]).rtp.seq == seq
}

/// Packets leave in order: whatever is set aside or given up, the packet that is given to
/// the assembler next has the number that is next, and the number after it is next then.
pub proof fn law_packets_leave_in_order<Raw: FrameRaw>(
    before: SsrcView<Raw>,
    after: SsrcView<Raw>,
    packet: PendingMediaPacket<Raw>,
    now: Instant,
    ttl: Duration,
    force: bool,
    result: Result<Option<PendingMediaFrame<Raw>>, Error>,
)
    requires
        keyed(before.buffered),
    ensures
        keyed(before.set_aside(packet, now).buffered),
        before.given_up(now, ttl, force).buffered == before.buffered,
        popped(before, after, now, result) ==> keyed(after.buffered),
        popped(before, after, now, result) && before.waiting.len() == 0 && before.ready() ==> {
            &&& before.buffered[before.next_seq->0].rtp.seq == before.next_seq->0
            &&& after.next_seq == Some(next_number(before.next_seq->0))
        },
{
}

/// A packet is not given up before its time: while the head is not overdue, nothing is
/// given up and no loss is reported; once it is, something is, and the loss begins with it.
pub proof fn law_losses_come_in_time<Raw: FrameRaw>(
    state: SsrcView<Raw>,
    ssrc: u32,
    now: Instant,
    ttl: Duration,
)
    requires
        state.missing.dom().finite(),
        state.next_seq is Some,
        state.missing.dom().contains(state.next_seq->0),
    ensures
        !overdue(state.missing[state.next_seq->0], now, ttl) ==> state.given_up(now, ttl, false)
            == state && state.loss(ssrc, now, ttl, false) is None,
        overdue(state.missing[state.next_seq->0], now, ttl) ==> (state.loss(
            ssrc,
            now,
            ttl,
            false,
        ) matches Some(loss) && loss.first_seq == state.next_seq->0 && loss.missing_packets >= 1),
{
}

/// A packet that is ahead and then found to be next, because what lay between has come,
/// is given out without a loss: its place is kept.
pub proof fn law_early_packets_are_kept<Raw: FrameRaw>(
    state: SsrcView<Raw>,
    packet: PendingMediaPacket<Raw>,
    now: Instant,
)
    requires
        state.next_seq is Some,
        !state.buffered.dom().contains(packet.rtp.seq),
    ensures
        ({
            let aside = state.set_aside(packet, now);
            &&& aside.buffered.dom().contains(packet.rtp.seq)
            &&& aside.buffered[packet.rtp.seq] == packet
            &&& aside.next_seq == state.next_seq
            &&& SsrcView { next_seq: Some(packet.rtp.seq), ..aside }.ready()
        }),
{
}

} // verus!
