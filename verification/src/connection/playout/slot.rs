//! The place of what is being played: there is one.

use super::active::{ActiveOpusPlayout, MediaGate, PlayoutMove, PlayoutView};
use super::frame::{frame_rows, PlayoutFrame};
use super::report::OpusPlayoutStats;
use crate::errors::{BackpressureError, Error};
use crate::media::OutboundPacket;
use crate::opus::discord::{Packet, PacketBatch};
use crate::time::Instant;
use vstd::prelude::*;

verus! {

/// What is asked for. `S` is whom to tell that playing starts, and `R` whom to tell how it
/// went.
pub enum PlayoutCommand<S, R> {
    Start { response: S },
    Frame { id: u64, frame: PlayoutFrame },
    Frames { id: u64, frames: Vec<PlayoutFrame> },
    Finish { id: u64, response: R },
    Cancel { id: u64 },
}

/// Who is to be told that the connection is closed.
pub enum ClosedReply<S, R> {
    Nobody,
    Start(S),
    Finish(R),
}

impl<S, R> PlayoutCommand<S, R> {
    pub fn packet(id: u64, packet: Packet) -> (command: Self)
        ensures
            command matches PlayoutCommand::Frame { id: of, frame } && of == id && frame@ == packet@,
    {
        PlayoutCommand::Frame { id, frame: PlayoutFrame::packet(packet) }
    }

    /// The packets of a batch in one command; none where there are no packets.
    pub fn packet_batch(id: u64, packets: PacketBatch) -> (command: Option<Self>)
        ensures
            match command {
                Some(command) => {
                    &&& packets@.len() > 0
                    &&& command matches PlayoutCommand::Frames { id: of, frames } && of == id
                        && frame_rows(frames@) == packets@
                },
                None => packets@.len() == 0,
            },
    {
        let frames = PlayoutFrame::packet_batch(packets);
        if frames.len() == 0 {
            return None;
        }
        assert(frame_rows(frames@) =~= packets@);
        Some(PlayoutCommand::Frames { id, frames })
    }

    /// The command comes too late.
    pub fn complete_closed(self) -> (reply: ClosedReply<S, R>)
        ensures
            reply == (match self {
                PlayoutCommand::Start { response } => ClosedReply::<S, R>::Start(response),
                PlayoutCommand::Finish { id: _, response } => ClosedReply::<S, R>::Finish(response),
                _ => ClosedReply::<S, R>::Nobody,
            }),
    {
        match self {
            PlayoutCommand::Start { response } => ClosedReply::Start(response),
            PlayoutCommand::Finish { id: _, response } => ClosedReply::Finish(response),
            PlayoutCommand::Frame { id: _, frame: _ } => ClosedReply::Nobody,
            PlayoutCommand::Frames { id: _, frames: _ } => ClosedReply::Nobody,
            PlayoutCommand::Cancel { id: _ } => ClosedReply::Nobody,
        }
    }
}

/// What is to be done when playing is over: first, whoever was announced as speaking no
/// longer is; then whoever waits is told.
pub struct PlayoutEnd<R> {
    pub stop_speaking: bool,
    pub reply: Option<(R, Result<OpusPlayoutStats, Error>)>,
}

/// What comes of a command.
pub enum PlayoutAnswer<S, R> {
    /// Another one is being played.
    Refused { response: S, error: Error },
    Started { response: S, id: u64 },
    /// There is nobody to tell.
    Taken,
    /// What is to be finished is not being played.
    Unknown { response: R },
    Ended(PlayoutEnd<R>),
}

/// What is to be done now.
pub enum PlayoutAction<R> {
    Wait,
    End(PlayoutEnd<R>),
    /// Announces who speaks, where that is asked for, and sends the next packet.
    Send { due_at: Instant, announce: bool },
}

/// What is being played, and what comes next.
pub struct PlayoutSlot<R> {
    pub active: Option<ActiveOpusPlayout<R>>,
    pub next_playout_id: u64,
}

/// The same, with the packets as rows of bytes.
#[verifier::ext_equal]
pub struct SlotView<R> {
    pub active: Option<PlayoutView<R>>,
    pub next_playout_id: u64,
}

impl<R> View for PlayoutSlot<R> {
    type V = SlotView<R>;

    open spec fn view(&self) -> SlotView<R> {
        SlotView {
            active: match self.active {
                Some(playout) => Some(playout@),
                None => None,
            },
            next_playout_id: self.next_playout_id,
        }
    }
}

impl<R> PlayoutView<R> {
    /// How it ends.
    pub open spec fn ended(self, outcome: Result<OpusPlayoutStats, Error>) -> PlayoutEnd<R> {
        PlayoutEnd {
            stop_speaking: self.speaking,
            reply: match self.finish_response {
                Some(response) => Some((response, outcome)),
                None => None,
            },
        }
    }
}

/// The number after this one: numbers start over at one.
pub open spec fn next_id(id: u64) -> u64 {
    if id == u64::MAX {
        1
    } else {
        (id + 1) as u64
    }
}

impl<R> SlotView<R> {
    /// What is being played, if it has this number.
    pub open spec fn of_id(self, id: u64) -> Option<PlayoutView<R>> {
        match self.active {
            Some(playout) if playout.id == id => Some(playout),
            _ => None,
        }
    }

    pub open spec fn with(self, playout: PlayoutView<R>) -> SlotView<R> {
        SlotView { active: Some(playout), ..self }
    }

    pub open spec fn without(self) -> SlotView<R> {
        SlotView { active: None, ..self }
    }

    /// What comes of a command.
    pub open spec fn handled<S>(
        self,
        command: PlayoutCommand<S, R>,
        now: Instant,
        dave_enabled: bool,
    ) -> (PlayoutAnswer<S, R>, SlotView<R>) {
        match command {
            PlayoutCommand::Start { response } => match self.active {
                Some(_) => (
                    PlayoutAnswer::Refused {
                        response,
                        error: Error::Backpressure(BackpressureError::ActiveOpusPlayout),
                    },
                    self,
                ),
                None => (
                    PlayoutAnswer::Started { response, id: self.next_playout_id },
                    SlotView {
                        active: Some(
                            PlayoutView::<R>::fresh(self.next_playout_id, now, dave_enabled),
                        ),
                        next_playout_id: next_id(self.next_playout_id),
                    },
                ),
            },
            PlayoutCommand::Frame { id, frame } => match self.of_id(id) {
                Some(playout) => (
                    PlayoutAnswer::Taken,
                    self.with(playout.pushed(seq![frame@], now)),
                ),
                None => (PlayoutAnswer::Taken, self),
            },
            PlayoutCommand::Frames { id, frames } => match self.of_id(id) {
                Some(playout) => (
                    PlayoutAnswer::Taken,
                    self.with(playout.pushed(frame_rows(frames@), now)),
                ),
                None => (PlayoutAnswer::Taken, self),
            },
            PlayoutCommand::Finish { id, response } => match self.of_id(id) {
                Some(playout) => (
                    PlayoutAnswer::Taken,
                    self.with(PlayoutView { finish_response: Some(response), ..playout }),
                ),
                None => (PlayoutAnswer::Unknown { response }, self),
            },
            PlayoutCommand::Cancel { id } => match self.of_id(id) {
                Some(playout) => (
                    PlayoutAnswer::Ended(playout.ended(Err(Error::Closed))),
                    self.without(),
                ),
                None => (PlayoutAnswer::Taken, self),
            },
        }
    }

    /// What is to be done now.
    pub open spec fn resolved(self, now: Instant, gate: MediaGate) -> (
        PlayoutAction<R>,
        SlotView<R>,
    ) {
        match self.active {
            None => (PlayoutAction::Wait, self),
            Some(playout) => {
                let (planned, after) = playout.planned(now, gate);
                match planned {
                    PlayoutMove::Wait => (PlayoutAction::Wait, self.with(after)),
                    PlayoutMove::Complete => (
                        PlayoutAction::End(
                            after.ended(
                                Ok(after.stats.finished(now.elapsed_since(after.started_at))),
                            ),
                        ),
                        self.without(),
                    ),
                    PlayoutMove::Expire { timeout } => (
                        PlayoutAction::End(
                            after.ended(
                                Err(Error::Timeout { stage: None, duration: timeout }),
                            ),
                        ),
                        self.without(),
                    ),
                    PlayoutMove::Send { due_at, announce } => (
                        PlayoutAction::Send { due_at, announce },
                        self.with(after),
                    ),
                }
            },
        }
    }
}

impl<R> PlayoutSlot<R> {
    pub fn new() -> (slot: Self)
        ensures
            slot@ == (SlotView::<R> { active: None, next_playout_id: 1 }),
    {
        PlayoutSlot { active: None, next_playout_id: 1 }
    }

    /// What is being played, taken out if it has this number.
    fn take_of_id(&mut self, id: u64) -> (playout: Option<ActiveOpusPlayout<R>>)
        ensures
            match playout {
                Some(playout) => {
                    &&& old(self)@.of_id(id) == Some(playout@)
                    &&& final(self)@ == old(self)@.without()
                },
                None => old(self)@.of_id(id) is None && final(self)@ == old(self)@,
            },
    {
        let same = match &self.active {
            Some(playout) => playout.id == id,
            None => false,
        };
        if same {
            let mut slot: Option<ActiveOpusPlayout<R>> = None;
            std::mem::swap(&mut slot, &mut self.active);
            slot
        } else {
            None
        }
    }

    /// Takes a command.
    pub fn handle_playout_command<S>(
        &mut self,
        command: PlayoutCommand<S, R>,
        now: Instant,
        dave_enabled: bool,
    ) -> (answer: PlayoutAnswer<S, R>)
        ensures
            (answer, final(self)@) == old(self)@.handled(command, now, dave_enabled),
    {
        match command {
            PlayoutCommand::Start { response } => {
                if self.active.is_some() {
                    return PlayoutAnswer::Refused {
                        response,
                        error: Error::Backpressure(BackpressureError::ActiveOpusPlayout),
                    };
                }
                let id = self.next_playout_id;
                self.next_playout_id = if id == u64::MAX {
                    1
                } else {
                    id + 1
                };
                self.active = Some(ActiveOpusPlayout::new(id, now, dave_enabled));
                PlayoutAnswer::Started { response, id }
            },
            PlayoutCommand::Frame { id, frame } => {
                if let Some(mut playout) = self.take_of_id(id) {
                    playout.push(frame, now);
                    self.active = Some(playout);
                }
                PlayoutAnswer::Taken
            },
            PlayoutCommand::Frames { id, frames } => {
                if let Some(mut playout) = self.take_of_id(id) {
                    playout.push_many(frames, now);
                    self.active = Some(playout);
                }
                PlayoutAnswer::Taken
            },
            PlayoutCommand::Finish { id, response } => match self.take_of_id(id) {
                Some(mut playout) => {
                    playout.finish(response);
                    self.active = Some(playout);
                    PlayoutAnswer::Taken
                },
                None => PlayoutAnswer::Unknown { response },
            },
            PlayoutCommand::Cancel { id } => match self.take_of_id(id) {
                Some(playout) => PlayoutAnswer::Ended(end_with_error(playout, Error::Closed)),
                None => PlayoutAnswer::Taken,
            },
        }
    }

    /// Decides what is to be done now.
    pub fn resolve_active_playout(&mut self, now: Instant, gate: MediaGate) -> (action:
        PlayoutAction<R>)
        ensures
            (action, final(self)@) == old(self)@.resolved(now, gate),
    {
        let mut slot: Option<ActiveOpusPlayout<R>> = None;
        std::mem::swap(&mut slot, &mut self.active);
        let mut playout = match slot {
            Some(playout) => playout,
            None => {
                return PlayoutAction::Wait;
            },
        };
        match playout.plan(now, gate) {
            PlayoutMove::Wait => {
                self.active = Some(playout);
                PlayoutAction::Wait
            },
            PlayoutMove::Complete => {
                let ActiveOpusPlayout {
                    id: _,
                    started_at,
                    frames: _,
                    next_send_at: _,
                    media_ready_deadline: _,
                    finish_response,
                    speaking,
                    stats,
                } = playout;
                let stats = stats.finish(now.since(started_at));
                PlayoutAction::End(
                    PlayoutEnd {
                        stop_speaking: speaking,
                        reply: match finish_response {
                            Some(response) => Some((response, Ok(stats))),
                            None => None,
                        },
                    },
                )
            },
            PlayoutMove::Expire { timeout } => PlayoutAction::End(
                end_with_error(playout, Error::Timeout { stage: None, duration: timeout }),
            ),
            PlayoutMove::Send { due_at, announce } => {
                self.active = Some(playout);
                PlayoutAction::Send { due_at, announce }
            },
        }
    }

    /// Takes the next packet to send it. It was announced.
    pub fn begin_send(&mut self, now: Instant) -> (frame: Option<PlayoutFrame>)
        ensures
            match old(self)@.active {
                None => frame is None && final(self)@ == old(self)@,
                Some(playout) => match frame {
                    Some(frame) => {
                        &&& playout.frames.len() > 0
                        &&& frame@ == playout.frames[0]
                        &&& final(self)@ == old(self)@.with(playout.begun(now))
                    },
                    None => {
                        &&& playout.frames.len() == 0
                        &&& final(self)@ == old(self)@.with(
                            PlayoutView { speaking: true, ..playout },
                        )
                    },
                },
            },
    {
        let mut slot: Option<ActiveOpusPlayout<R>> = None;
        std::mem::swap(&mut slot, &mut self.active);
        match slot {
            Some(mut playout) => {
                let frame = playout.begin_send(now);
                self.active = Some(playout);
                frame
            },
            None => None,
        }
    }

    /// The packet was sent.
    pub fn send_succeeded(
        &mut self,
        due_at: Instant,
        send_started: Instant,
        now: Instant,
        packet: OutboundPacket,
    )
        ensures
            final(self)@ == (match old(self)@.active {
                None => old(self)@,
                Some(playout) => old(self)@.with(
                    playout.sent(due_at, send_started, now, packet),
                ),
            }),
    {
        let mut slot: Option<ActiveOpusPlayout<R>> = None;
        std::mem::swap(&mut slot, &mut self.active);
        if let Some(mut playout) = slot {
            playout.record_sent(due_at, send_started, now, packet);
            self.active = Some(playout);
        }
    }

    /// The packet was not sent: playing is over.
    pub fn send_failed(&mut self, error: Error) -> (end: Option<PlayoutEnd<R>>)
        ensures
            final(self)@ == old(self)@.without(),
            end == (match old(self)@.active {
                Some(playout) => Some(playout.ended(Err(error))),
                None => None,
            }),
    {
        let mut slot: Option<ActiveOpusPlayout<R>> = None;
        std::mem::swap(&mut slot, &mut self.active);
        match slot {
            Some(playout) => Some(end_with_error(playout, error)),
            None => None,
        }
    }

    /// The connection is closed: whoever waits is to be told.
    pub fn take_closed(&mut self) -> (response: Option<R>)
        ensures
            final(self)@ == old(self)@.without(),
            response == (match old(self)@.active {
                Some(playout) => playout.finish_response,
                None => None,
            }),
    {
        let mut slot: Option<ActiveOpusPlayout<R>> = None;
        std::mem::swap(&mut slot, &mut self.active);
        match slot {
            Some(playout) => playout.finish_response,
            None => None,
        }
    }
}

/// How playing ends with an error.
fn end_with_error<R>(playout: ActiveOpusPlayout<R>, error: Error) -> (end: PlayoutEnd<R>)
    ensures
        end == playout@.ended(Err(error)),
{
    PlayoutEnd {
        stop_speaking: playout.speaking,
        reply: match playout.finish_response {
            Some(response) => Some((response, Err(error))),
            None => None,
        },
    }
}

} // verus!
