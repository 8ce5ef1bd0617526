//! How playing went.

use crate::media::OutboundPacket;
use crate::stats::{observed, DurationDistribution, DurationStats};
use crate::time::{capped, Duration, Instant};
use vstd::prelude::*;

verus! {

/// How playing went, when it is over.
#[derive(Clone, Copy, Debug, PartialEq, Eq, Structural)]
pub struct OpusPlayoutStats {
    pub packets: usize,
    pub first_packet: Option<OutboundPacket>,
    pub last_packet: Option<OutboundPacket>,
    pub first_packet_sent_at: Option<Instant>,
    pub first_packet_sent_after_start: Option<Duration>,
    pub wall_elapsed: Duration,
    pub expected_media: Duration,
    pub send_call: DurationDistribution,
    pub inter_frame_gap: DurationDistribution,
    pub scheduler_lateness: DurationDistribution,
    pub late_wakes_over_5ms: usize,
    pub late_wakes_over_20ms: usize,
    pub underflows: usize,
    pub underflow_wait: DurationDistribution,
    pub dropped_stale_frames: usize,
    pub clock_rebases: usize,
    pub clock_rebase_wait: DurationDistribution,
    pub dave_enabled: bool,
}

/// How playing goes.
#[derive(Debug)]
pub struct ActiveOpusPlayoutStats {
    pub packets: usize,
    pub first_packet: Option<OutboundPacket>,
    pub last_packet: Option<OutboundPacket>,
    pub first_packet_sent_at: Option<Instant>,
    pub first_packet_sent_after_start: Option<Duration>,
    pub expected_media: Duration,
    pub send_call: DurationStats,
    pub inter_frame_gap: DurationStats,
    pub scheduler_lateness: DurationStats,
    pub late_wakes_over_5ms: usize,
    pub late_wakes_over_20ms: usize,
    pub underflows: usize,
    pub underflow_wait: DurationStats,
    pub dropped_stale_frames: usize,
    pub clock_rebases: usize,
    pub clock_rebase_wait: DurationStats,
    pub last_send_started_at: Option<Instant>,
    pub dave_enabled: bool,
}

/// The same, with the spans in rows.
#[verifier::ext_equal]
pub struct PlayoutReport {
    pub packets: usize,
    pub first_packet: Option<OutboundPacket>,
    pub last_packet: Option<OutboundPacket>,
    pub first_packet_sent_at: Option<Instant>,
    pub first_packet_sent_after_start: Option<Duration>,
    pub expected_media: Duration,
    pub send_call: Seq<Duration>,
    pub inter_frame_gap: Seq<Duration>,
    pub scheduler_lateness: Seq<Duration>,
    pub late_wakes_over_5ms: usize,
    pub late_wakes_over_20ms: usize,
    pub underflows: usize,
    pub underflow_wait: Seq<Duration>,
    pub dropped_stale_frames: usize,
    pub clock_rebases: usize,
    pub clock_rebase_wait: Seq<Duration>,
    pub last_send_started_at: Option<Instant>,
    pub dave_enabled: bool,
}

impl View for ActiveOpusPlayoutStats {
    type V = PlayoutReport;

    open spec fn view(&self) -> PlayoutReport {
        PlayoutReport {
            packets: self.packets,
            first_packet: self.first_packet,
            last_packet: self.last_packet,
            first_packet_sent_at: self.first_packet_sent_at,
            first_packet_sent_after_start: self.first_packet_sent_after_start,
            expected_media: self.expected_media,
            send_call: self.send_call@,
            inter_frame_gap: self.inter_frame_gap@,
            scheduler_lateness: self.scheduler_lateness@,
            late_wakes_over_5ms: self.late_wakes_over_5ms,
            late_wakes_over_20ms: self.late_wakes_over_20ms,
            underflows: self.underflows,
            underflow_wait: self.underflow_wait@,
            dropped_stale_frames: self.dropped_stale_frames,
            clock_rebases: self.clock_rebases,
            clock_rebase_wait: self.clock_rebase_wait@,
            last_send_started_at: self.last_send_started_at,
            dave_enabled: self.dave_enabled,
        }
    }
}

/// A count when more are counted, as far as a number can say.
pub open spec fn counted(count: usize, more: nat) -> usize {
    if count + more > usize::MAX {
        usize::MAX
    } else {
        (count + more) as usize
    }
}

impl PlayoutReport {
    /// At the start.
    pub open spec fn fresh(dave_enabled: bool) -> PlayoutReport {
        PlayoutReport {
            packets: 0,
            first_packet: None,
            last_packet: None,
            first_packet_sent_at: None,
            first_packet_sent_after_start: None,
            expected_media: Duration { nanos: 0 },
            send_call: Seq::empty(),
            inter_frame_gap: Seq::empty(),
            scheduler_lateness: Seq::empty(),
            late_wakes_over_5ms: 0,
            late_wakes_over_20ms: 0,
            underflows: 0,
            underflow_wait: Seq::empty(),
            dropped_stale_frames: 0,
            clock_rebases: 0,
            clock_rebase_wait: Seq::empty(),
            last_send_started_at: None,
            dave_enabled,
        }
    }

    /// When the sending of a packet starts: the time since the one before is kept.
    pub open spec fn send_started(self, now: Instant) -> PlayoutReport {
        PlayoutReport {
            inter_frame_gap: match self.last_send_started_at {
                Some(previous) => observed(self.inter_frame_gap, now.elapsed_since(previous)),
                None => self.inter_frame_gap,
            },
            last_send_started_at: Some(now),
            ..self
        }
    }

    /// When a packet was sent.
    pub open spec fn packet_sent(
        self,
        started_at: Instant,
        send_started: Instant,
        now: Instant,
        packet: OutboundPacket,
        duration: Duration,
    ) -> PlayoutReport {
        let first = self.first_packet is None;
        PlayoutReport {
            send_call: observed(self.send_call, now.elapsed_since(send_started)),
            expected_media: Duration { nanos: capped(self.expected_media.nanos + duration.nanos) },
            packets: counted(self.packets, 1),
            first_packet: if first {
                Some(packet)
            } else {
                self.first_packet
            },
            first_packet_sent_at: if first {
                Some(now)
            } else {
                self.first_packet_sent_at
            },
            first_packet_sent_after_start: if first {
                Some(now.elapsed_since(started_at))
            } else {
                self.first_packet_sent_after_start
            },
            last_packet: Some(packet),
            ..self
        }
    }

    /// When a packet is due for some time.
    pub open spec fn late(self, lateness: Duration) -> PlayoutReport {
        PlayoutReport {
            scheduler_lateness: observed(self.scheduler_lateness, lateness),
            late_wakes_over_5ms: if lateness.nanos >= 5_000_000 {
                counted(self.late_wakes_over_5ms, 1)
            } else {
                self.late_wakes_over_5ms
            },
            late_wakes_over_20ms: if lateness.nanos >= 20_000_000 {
                counted(self.late_wakes_over_20ms, 1)
            } else {
                self.late_wakes_over_20ms
            },
            ..self
        }
    }

    /// When the clock starts anew.
    pub open spec fn rebased(self, lateness: Duration) -> PlayoutReport {
        PlayoutReport {
            clock_rebases: counted(self.clock_rebases, 1),
            clock_rebase_wait: observed(self.clock_rebase_wait, lateness),
            ..self
        }
    }

    /// When packets come late.
    pub open spec fn underflowed(self, wait: Duration) -> PlayoutReport {
        PlayoutReport {
            underflows: counted(self.underflows, 1),
            underflow_wait: observed(self.underflow_wait, wait),
            ..self
        }
    }

    /// When packets are left out.
    pub open spec fn dropped(self, count: nat) -> PlayoutReport {
        PlayoutReport { dropped_stale_frames: counted(self.dropped_stale_frames, count), ..self }
    }

    /// When it is over.
    pub open spec fn finished(self, wall_elapsed: Duration) -> OpusPlayoutStats {
        OpusPlayoutStats {
            packets: self.packets,
            first_packet: self.first_packet,
            last_packet: self.last_packet,
            first_packet_sent_at: self.first_packet_sent_at,
            first_packet_sent_after_start: self.first_packet_sent_after_start,
            wall_elapsed,
            expected_media: self.expected_media,
            send_call: DurationDistribution::of(self.send_call),
            inter_frame_gap: DurationDistribution::of(self.inter_frame_gap),
            scheduler_lateness: DurationDistribution::of(self.scheduler_lateness),
            late_wakes_over_5ms: self.late_wakes_over_5ms,
            late_wakes_over_20ms: self.late_wakes_over_20ms,
            underflows: self.underflows,
            underflow_wait: DurationDistribution::of(self.underflow_wait),
            dropped_stale_frames: self.dropped_stale_frames,
            clock_rebases: self.clock_rebases,
            clock_rebase_wait: DurationDistribution::of(self.clock_rebase_wait),
            dave_enabled: self.dave_enabled,
        }
    }
}

impl ActiveOpusPlayoutStats {
    pub fn new(dave_enabled: bool) -> (stats: Self)
        ensures
            stats@ == PlayoutReport::fresh(dave_enabled),
    {
        ActiveOpusPlayoutStats {
            packets: 0,
            first_packet: None,
            last_packet: None,
            first_packet_sent_at: None,
            first_packet_sent_after_start: None,
            expected_media: Duration::zero(),
            send_call: DurationStats::new(),
            inter_frame_gap: DurationStats::new(),
            scheduler_lateness: DurationStats::new(),
            late_wakes_over_5ms: 0,
            late_wakes_over_20ms: 0,
            underflows: 0,
            underflow_wait: DurationStats::new(),
            dropped_stale_frames: 0,
            clock_rebases: 0,
            clock_rebase_wait: DurationStats::new(),
            last_send_started_at: None,
            dave_enabled,
        }
    }

    pub fn record_send_started(&mut self, now: Instant)
        ensures
            final(self)@ == old(self)@.send_started(now),
    {
        if let Some(previous) = self.last_send_started_at {
            self.inter_frame_gap.observe(now.since(previous));
        }
        self.last_send_started_at = Some(now);
    }

    pub fn record_packet_sent(
        &mut self,
        started_at: Instant,
        send_started: Instant,
        now: Instant,
        packet: OutboundPacket,
        duration: Duration,
    )
        ensures
            final(self)@ == old(self)@.packet_sent(
                started_at,
                send_started,
                now,
                packet,
                duration,
            ),
    {
        self.send_call.observe(now.since(send_started));
        self.expected_media = self.expected_media.plus(duration);
        self.packets = self.packets.saturating_add(1);
        if self.first_packet.is_none() {
            self.first_packet = Some(packet);
            self.first_packet_sent_at = Some(now);
            self.first_packet_sent_after_start = Some(now.since(started_at));
        }
        self.last_packet = Some(packet);
    }

    pub fn record_lateness(&mut self, lateness: Duration)
        ensures
            final(self)@ == old(self)@.late(lateness),
    {
        self.scheduler_lateness.observe(lateness);
        if lateness.as_nanos() >= 5_000_000 {
            self.late_wakes_over_5ms = self.late_wakes_over_5ms.saturating_add(1);
        }
        if lateness.as_nanos() >= 20_000_000 {
            self.late_wakes_over_20ms = self.late_wakes_over_20ms.saturating_add(1);
        }
    }

    pub fn record_clock_rebase(&mut self, lateness: Duration)
        ensures
            final(self)@ == old(self)@.rebased(lateness),
    {
        self.clock_rebases = self.clock_rebases.saturating_add(1);
        self.clock_rebase_wait.observe(lateness);
    }

    pub fn record_underflow(&mut self, wait: Duration)
        ensures
            final(self)@ == old(self)@.underflowed(wait),
    {
        self.underflows = self.underflows.saturating_add(1);
        self.underflow_wait.observe(wait);
    }

    pub fn record_stale_frame(&mut self)
        ensures
            final(self)@ == old(self)@.dropped(1),
    {
        self.dropped_stale_frames = self.dropped_stale_frames.saturating_add(1);
    }

    pub fn finish(self, wall_elapsed: Duration) -> (stats: OpusPlayoutStats)
        ensures
            stats == self@.finished(wall_elapsed),
    {
        OpusPlayoutStats {
            packets: self.packets,
            first_packet: self.first_packet,
            last_packet: self.last_packet,
            first_packet_sent_at: self.first_packet_sent_at,
            first_packet_sent_after_start: self.first_packet_sent_after_start,
            wall_elapsed,
            expected_media: self.expected_media,
            send_call: self.send_call.finish(),
            inter_frame_gap: self.inter_frame_gap.finish(),
            scheduler_lateness: self.scheduler_lateness.finish(),
            late_wakes_over_5ms: self.late_wakes_over_5ms,
            late_wakes_over_20ms: self.late_wakes_over_20ms,
            underflows: self.underflows,
            underflow_wait: self.underflow_wait.finish(),
            dropped_stale_frames: self.dropped_stale_frames,
            clock_rebases: self.clock_rebases,
            clock_rebase_wait: self.clock_rebase_wait.finish(),
            dave_enabled: self.dave_enabled,
        }
    }
}

} // verus!
