//! Packets that are being played.

use super::frame::{frame_rows, PlayoutFrame};
use super::report::{ActiveOpusPlayoutStats, OpusPlayoutStats, PlayoutReport};
use crate::media::OutboundPacket;
use crate::time::{Duration, Instant};
use std::collections::VecDeque;
use vstd::prelude::*;

verus! {

/// How long a packet lasts, in nanoseconds.
pub const FRAME_NANOS: u128 = 20_000_000;

/// How late a packet may be, in nanoseconds: three packets.
pub const STALE_NANOS: u128 = 60_000_000;

/// Packets that are being played, one after the other. `R` is whom to tell when they are.
pub struct ActiveOpusPlayout<R> {
    pub id: u64,
    pub started_at: Instant,
    pub frames: VecDeque<PlayoutFrame>,
    pub next_send_at: Option<Instant>,
    pub media_ready_deadline: Option<Instant>,
    pub finish_response: Option<R>,
    pub speaking: bool,
    pub stats: ActiveOpusPlayoutStats,
}

/// The same, with the packets as rows of bytes.
#[verifier::ext_equal]
pub struct PlayoutView<R> {
    pub id: u64,
    pub started_at: Instant,
    pub frames: Seq<Seq<u8>>,
    pub next_send_at: Option<Instant>,
    pub media_ready_deadline: Option<Instant>,
    pub finish_response: Option<R>,
    pub speaking: bool,
    pub stats: PlayoutReport,
}

impl<R> View for ActiveOpusPlayout<R> {
    type V = PlayoutView<R>;

    open spec fn view(&self) -> PlayoutView<R> {
        PlayoutView {
            id: self.id,
            started_at: self.started_at,
            frames: frame_rows(self.frames@),
            next_send_at: self.next_send_at,
            media_ready_deadline: self.media_ready_deadline,
            finish_response: self.finish_response,
            speaking: self.speaking,
            stats: self.stats@,
        }
    }
}

/// Whether media may be sent: not before the session is ready, where DAVE is in force. There
/// is only so much time for that.
#[derive(Clone, Copy, Debug, PartialEq, Eq, Structural)]
pub struct MediaGate {
    pub requires_dave: bool,
    pub media_ready: bool,
    pub timeout: Duration,
}

/// What is to be done with packets that are being played.
#[derive(Clone, Copy, Debug, PartialEq, Eq, Structural)]
pub enum PlayoutMove {
    /// Nothing now.
    Wait,
    /// All of them were played.
    Complete,
    /// The session was not ready in time.
    Expire { timeout: Duration },
    /// The next one is sent, which was due at this time. If it is the first, it is
    /// announced.
    Send { due_at: Instant, announce: bool },
}

/// How a packet that is due is caught up with: how many before it are left out, and when the
/// one after these was due.
pub struct CatchUp {
    pub dropped: nat,
    pub due_at: Instant,
}

/// Packets that are late by three are left out, as long as another one waits.
pub open spec fn catch_up(due_at: Instant, now: Instant, waiting: nat) -> CatchUp
    decreases waiting,
{
    if now.elapsed_since(due_at).nanos >= STALE_NANOS && waiting > 1 {
        let rest = catch_up(
            due_at.later(Duration { nanos: FRAME_NANOS }),
            now,
            (waiting - 1) as nat,
        );
        CatchUp { dropped: rest.dropped + 1, due_at: rest.due_at }
    } else {
        CatchUp { dropped: 0, due_at }
    }
}

impl<R> PlayoutView<R> {
    /// At the start.
    pub open spec fn fresh(id: u64, now: Instant, dave_enabled: bool) -> PlayoutView<R> {
        PlayoutView {
            id,
            started_at: now,
            frames: Seq::empty(),
            next_send_at: None,
            media_ready_deadline: None,
            finish_response: None,
            speaking: false,
            stats: PlayoutReport::fresh(dave_enabled),
        }
    }

    /// Before packets are taken in: where the next one should have been sent by now and
    /// none was there, that is reported, and the clock starts anew.
    pub open spec fn noticed(self, now: Instant) -> PlayoutView<R> {
        match self.next_send_at {
            Some(due) if self.frames.len() == 0 && self.finish_response is None && now.nanos
                > due.nanos => PlayoutView {
                next_send_at: None,
                stats: self.stats.underflowed(now.elapsed_since(due)),
                ..self
            },
            _ => self,
        }
    }

    /// When packets are taken in.
    pub open spec fn pushed(self, frames: Seq<Seq<u8>>, now: Instant) -> PlayoutView<R> {
        let noticed = self.noticed(now);
        PlayoutView { frames: noticed.frames + frames, ..noticed }
    }

    /// Whether all packets were played, and the last one lasted its time.
    pub open spec fn complete(self, now: Instant) -> bool {
        &&& self.finish_response is Some
        &&& self.frames.len() == 0
        &&& self.next_send_at matches Some(due) ==> now.nanos >= due.nanos
    }

    /// When the next packet is due: at once, where none was sent before.
    pub open spec fn due(self, now: Instant) -> Instant {
        match self.next_send_at {
            Some(due) => due,
            None => now,
        }
    }

    /// When a packet is due that was caught up with.
    pub open spec fn caught_up(self, now: Instant) -> (PlayoutView<R>, Instant) {
        let plan = catch_up(self.due(now), now, self.frames.len());
        let lateness = now.elapsed_since(plan.due_at);
        let rebased = lateness.nanos >= STALE_NANOS;
        let dropped = self.stats.dropped(plan.dropped);
        let timed = if rebased {
            dropped.rebased(lateness)
        } else {
            dropped
        };
        (
            PlayoutView {
                frames: self.frames.skip(plan.dropped as int),
                stats: if self.next_send_at is Some {
                    timed.late(lateness)
                } else {
                    timed
                },
                ..self
            },
            if rebased {
                now
            } else {
                plan.due_at
            },
        )
    }

    /// What is to be done, and what is known after that.
    pub open spec fn planned(self, now: Instant, gate: MediaGate) -> (PlayoutMove, PlayoutView<R>) {
        if self.complete(now) {
            (PlayoutMove::Complete, self)
        } else if self.frames.len() == 0 || now.nanos < self.due(now).nanos {
            (PlayoutMove::Wait, self)
        } else {
            let (after, due_at) = self.caught_up(now);
            if gate.requires_dave && !gate.media_ready {
                let deadline = match self.media_ready_deadline {
                    Some(deadline) => deadline,
                    None => now.later(gate.timeout),
                };
                let waiting = PlayoutView { media_ready_deadline: Some(deadline), ..after };
                if now.nanos >= deadline.nanos {
                    (PlayoutMove::Expire { timeout: gate.timeout }, waiting)
                } else {
                    (PlayoutMove::Wait, waiting)
                }
            } else {
                (
                    PlayoutMove::Send { due_at, announce: !self.speaking },
                    PlayoutView { media_ready_deadline: None, ..after },
                )
            }
        }
    }

    /// When the sending of the next packet starts.
    pub open spec fn begun(self, now: Instant) -> PlayoutView<R> {
        PlayoutView {
            speaking: true,
            frames: self.frames.drop_first(),
            stats: self.stats.send_started(now),
            ..self
        }
    }

    /// When a packet was sent: the next one is due when this one is over.
    pub open spec fn sent(
        self,
        due_at: Instant,
        send_started: Instant,
        now: Instant,
        packet: OutboundPacket,
    ) -> PlayoutView<R> {
        let frame = Duration { nanos: FRAME_NANOS };
        PlayoutView {
            stats: self.stats.packet_sent(self.started_at, send_started, now, packet, frame),
            next_send_at: Some(due_at.later(frame)),
            ..self
        }
    }
}

impl<R> ActiveOpusPlayout<R> {
    pub fn new(id: u64, now: Instant, dave_enabled: bool) -> (playout: Self)
        ensures
            playout@ == PlayoutView::<R>::fresh(id, now, dave_enabled),
    {
        let playout = ActiveOpusPlayout {
            id,
            started_at: now,
            frames: VecDeque::new(),
            next_send_at: None,
            media_ready_deadline: None,
            finish_response: None,
            speaking: false,
            stats: ActiveOpusPlayoutStats::new(dave_enabled),
        };
        assert(playout@.frames =~= Seq::<Seq<u8>>::empty());
        playout
    }

    pub fn push(&mut self, frame: PlayoutFrame, now: Instant)
        ensures
            final(self)@ == old(self)@.pushed(seq![frame@], now),
    {
        let ghost before = self@;
        self.record_underflow_if_needed(now);
        let ghost rows = self@.frames;
        let ghost row = frame@;
        self.frames.push_back(frame);
        assert(frame_rows(self.frames@) =~= rows + seq![row]);
        assert(self@ =~= before.pushed(seq![row], now));
    }

    pub fn push_many(&mut self, frames: Vec<PlayoutFrame>, now: Instant)
        ensures
            final(self)@ == old(self)@.pushed(frame_rows(frames@), now),
    {
        let ghost before = self@;
        self.record_underflow_if_needed(now);
        let ghost noticed = self@;
        let ghost all = frames@;
        let mut rest: VecDeque<PlayoutFrame> = VecDeque::new();
        let mut frames = frames;
        while frames.len() > 0
            invariant
                self@ == noticed,
                frames@.len() <= all.len(),
                frames@ == all.subrange(0, frames@.len() as int),
                rest@ == all.subrange(frames@.len() as int, all.len() as int),
            decreases frames@.len(),
        {
            if let Some(frame) = frames.pop() {
                rest.push_front(frame);
                assert(frames@ =~= all.subrange(0, frames@.len() as int));
                assert(rest@ =~= all.subrange(frames@.len() as int, all.len() as int));
            }
        }
        assert(rest@ =~= all);
        while rest.len() > 0
            invariant
                rest@.len() <= all.len(),
                rest@ == all.subrange(all.len() - rest@.len(), all.len() as int),
                self@ == (PlayoutView {
                    frames: noticed.frames + frame_rows(
                        all.subrange(0, all.len() - rest@.len()),
                    ),
                    ..noticed
                }),
            decreases rest@.len(),
        {
            let ghost count = all.len() - rest@.len();
            let ghost rows = self@.frames;
            if let Some(frame) = rest.pop_front() {
                assert(rest@ =~= all.subrange(count + 1, all.len() as int));
                let ghost row = frame@;
                self.frames.push_back(frame);
                assert(frame_rows(self.frames@) =~= rows.push(row));
                assert(rows.push(row) =~= noticed.frames + frame_rows(all.subrange(0, count + 1)));
            }
        }
        assert(all.subrange(0, all.len() as int) =~= all);
        assert(self@ =~= before.pushed(frame_rows(all), now));
    }

    fn record_underflow_if_needed(&mut self, now: Instant)
        ensures
            final(self)@ == old(self)@.noticed(now),
            final(self).frames@ == old(self).frames@,
    {
        if self.frames.len() == 0 && self.finish_response.is_none() {
            if let Some(due) = self.next_send_at {
                if now.as_nanos() > due.as_nanos() {
                    self.next_send_at = None;
                    self.stats.record_underflow(now.since(due));
                }
            }
        }
    }

    /// There are no more packets to come.
    pub fn finish(&mut self, response: R)
        ensures
            final(self)@ == (PlayoutView { finish_response: Some(response), ..old(self)@ }),
    {
        self.finish_response = Some(response);
    }

    /// Until when the session has to be ready.
    pub fn dave_deadline(&self) -> (deadline: Option<Instant>)
        ensures
            deadline == (if self@.frames.len() > 0 {
                self@.media_ready_deadline
            } else {
                None
            }),
    {
        if self.frames.len() == 0 {
            None
        } else {
            self.media_ready_deadline
        }
    }

    /// When there is something to do.
    pub fn wake_deadline(&self, now: Instant) -> (deadline: Option<Instant>)
        ensures
            deadline == (if self@.frames.len() > 0 {
                Some(self@.due(now))
            } else if self@.finish_response is Some {
                self@.next_send_at
            } else {
                None
            }),
    {
        if self.frames.len() > 0 {
            return match self.next_send_at {
                Some(due) => Some(due),
                None => Some(now),
            };
        }
        if self.finish_response.is_some() {
            return self.next_send_at;
        }
        None
    }

    pub fn ready_to_complete(&self, now: Instant) -> (ready: bool)
        ensures
            ready == self@.complete(now),
    {
        if self.finish_response.is_none() || self.frames.len() > 0 {
            return false;
        }
        match self.next_send_at {
            Some(due) => now.reached(due),
            None => true,
        }
    }

    /// Leaves out packets that are late, and says when the next one was due.
    fn catch_up(&mut self, now: Instant) -> (due_at: Instant)
        requires
            old(self)@.frames.len() > 0,
        ensures
            (final(self)@, due_at) == old(self)@.caught_up(now),
    {
        let ghost before = self@;
        let mut due_at = match self.next_send_at {
            Some(due) => due,
            None => now,
        };
        let ghost plan = catch_up(due_at, now, self@.frames.len());
        let ghost mut done: nat = 0;
        let mut lateness = now.since(due_at);
        while lateness.as_nanos() >= STALE_NANOS && self.frames.len() > 1
            invariant
                done <= plan.dropped,
                self.frames@.len() > 0,
                plan.dropped == done + catch_up(due_at, now, self@.frames.len()).dropped,
                plan.due_at == catch_up(due_at, now, self@.frames.len()).due_at,
                lateness == now.elapsed_since(due_at),
                self@ == (PlayoutView {
                    frames: before.frames.skip(done as int),
                    stats: before.stats.dropped(done),
                    ..before
                }),
                done + self@.frames.len() == before.frames.len(),
            decreases self.frames@.len(),
        {
            let ghost rows = self@.frames;
            let frame = self.frames.pop_front();
            self.stats.record_stale_frame();
            due_at = due_at.plus(Duration { nanos: FRAME_NANOS });
            lateness = now.since(due_at);
            proof {
                done = done + 1;
                assert(frame_rows(self.frames@) =~= rows.drop_first());
                assert(rows.drop_first() =~= before.frames.skip(done as int));
            }
        }
        if lateness.as_nanos() >= STALE_NANOS {
            self.stats.record_clock_rebase(lateness);
            due_at = now;
        }
        if self.next_send_at.is_some() {
            self.stats.record_lateness(lateness);
        }
        due_at
    }

    /// Decides what is to be done now.
    pub fn plan(&mut self, now: Instant, gate: MediaGate) -> (planned: PlayoutMove)
        ensures
            (planned, final(self)@) == old(self)@.planned(now, gate),
    {
        if self.ready_to_complete(now) {
            return PlayoutMove::Complete;
        }
        if self.frames.len() == 0 {
            return PlayoutMove::Wait;
        }
        if let Some(due) = self.next_send_at {
            if !now.reached(due) {
                return PlayoutMove::Wait;
            }
        }
        let due_at = self.catch_up(now);
        if gate.requires_dave && !gate.media_ready {
            let deadline = match self.media_ready_deadline {
                Some(deadline) => deadline,
                None => now.plus(gate.timeout),
            };
            self.media_ready_deadline = Some(deadline);
            if now.reached(deadline) {
                return PlayoutMove::Expire { timeout: gate.timeout };
            }
            return PlayoutMove::Wait;
        }
        self.media_ready_deadline = None;
        PlayoutMove::Send { due_at, announce: !self.speaking }
    }

    /// Takes the next packet to send it. It was announced.
    pub fn begin_send(&mut self, now: Instant) -> (frame: Option<PlayoutFrame>)
        ensures
            match frame {
                Some(frame) => {
                    &&& old(self)@.frames.len() > 0
                    &&& frame@ == old(self)@.frames[0]
                    &&& final(self)@ == old(self)@.begun(now)
                },
                None => {
                    &&& old(self)@.frames.len() == 0
                    &&& final(self)@ == (PlayoutView { speaking: true, ..old(self)@ })
                },
            },
    {
        let ghost rows = self@.frames;
        self.speaking = true;
        match self.frames.pop_front() {
            Some(frame) => {
                self.stats.record_send_started(now);
                assert(frame_rows(self.frames@) =~= rows.drop_first());
                Some(frame)
            },
            None => None,
        }
    }

    /// Takes note that a packet was sent.
    pub fn record_sent(
        &mut self,
        due_at: Instant,
        send_started: Instant,
        now: Instant,
        packet: OutboundPacket,
    )
        ensures
            final(self)@ == old(self)@.sent(due_at, send_started, now, packet),
    {
        let frame = Duration { nanos: FRAME_NANOS };
        self.stats.record_packet_sent(self.started_at, send_started, now, packet, frame);
        self.next_send_at = Some(due_at.plus(frame));
    }

    /// How playing went.
    pub fn stats(self, now: Instant) -> (stats: OpusPlayoutStats)
        ensures
            stats == self@.stats.finished(now.elapsed_since(self@.started_at)),
    {
        self.stats.finish(now.since(self.started_at))
    }
}

} // verus!
