//! From datagrams to frames.

use crate::errors::{Error, PayloadKind};
use crate::media::{RawUdpPacket, RawUdpPacketInfo, ReceivedFrame};
use crate::observer::{
    DavePendingMediaEvent, DecodeErrorView, ReceiveDecodeErrorEvent, ReceiveFrameDropReason,
    ReceiveFrameDroppedEvent, ReceiveRtpEvent,
};
use crate::queue::BoundedDeque;
use std::collections::{HashSet, VecDeque};
use vstd::prelude::*;
use vstd::std_specs::hash::group_hash_axioms;

verus! {

broadcast use group_hash_axioms;

/// Which datagrams a caller asks for.
#[derive(Clone, Copy, Debug, PartialEq, Eq, Structural)]
pub enum LowLevelReceiveKind {
    RawUdp,
    RtpUdp,
}

impl LowLevelReceiveKind {
    pub fn payload_kind(self) -> (kind: PayloadKind)
        ensures
            kind == self.kind_of_payload(),
    {
        match self {
            LowLevelReceiveKind::RawUdp => PayloadKind::RawUdpPacket,
            LowLevelReceiveKind::RtpUdp => PayloadKind::RtpPacket,
        }
    }

    pub open spec fn kind_of_payload(self) -> PayloadKind {
        match self {
            LowLevelReceiveKind::RawUdp => PayloadKind::RawUdpPacket,
            LowLevelReceiveKind::RtpUdp => PayloadKind::RtpPacket,
        }
    }

    pub open spec fn takes(self, info: RawUdpPacketInfo) -> bool {
        match self {
            LowLevelReceiveKind::RawUdp => true,
            LowLevelReceiveKind::RtpUdp => !info.rtcp(),
        }
    }

    pub fn accepts(self, info: RawUdpPacketInfo) -> (answer: bool)
        ensures
            answer == self.takes(info),
    {
        match self {
            LowLevelReceiveKind::RawUdp => true,
            LowLevelReceiveKind::RtpUdp => !info.is_rtcp(),
        }
    }
}

/// The packet, unless it is longer than the caller takes.
pub fn limit_raw_packet_result(raw: RawUdpPacket, max_len: usize, kind: PayloadKind) -> (result:
    Result<RawUdpPacket, Error>)
    ensures
        result == (if raw.bytes@.len() > max_len {
            Err::<RawUdpPacket, Error>(
                Error::PayloadTooLarge { kind, len: raw.bytes@.len() as usize, max_len },
            )
        } else {
            Ok::<RawUdpPacket, Error>(raw)
        }),
{
    raw.ensure_len_at_most(max_len, kind)
}

/// The frame, unless it is longer than the caller takes; an error stays what it is.
pub fn limit_voice_frame_result<Raw>(
    result: Result<ReceivedFrame<Raw>, Error>,
    max_len: usize,
) -> (limited: Result<ReceivedFrame<Raw>, Error>)
    ensures
        limited == (match result {
            Ok(frame) => if frame.frame@.len() > max_len {
                Err::<ReceivedFrame<Raw>, Error>(
                    Error::PayloadTooLarge {
                        kind: PayloadKind::Frame,
                        len: frame.frame@.len() as usize,
                        max_len,
                    },
                )
            } else {
                Ok::<ReceivedFrame<Raw>, Error>(frame)
            },
            Err(error) => Err::<ReceivedFrame<Raw>, Error>(error),
        }),
{
    match result {
        Ok(frame) => frame.ensure_len_at_most(max_len),
        Err(error) => Err(error),
    }
}

/// Frames, and what was wrong with others, that wait to be taken. Where there is no room
/// the oldest one goes.
pub struct ReadyFrameQueue<Raw> {
    frames: BoundedDeque<Result<ReceivedFrame<Raw>, Error>>,
}

impl<Raw> View for ReadyFrameQueue<Raw> {
    type V = Seq<Result<ReceivedFrame<Raw>, Error>>;

    closed spec fn view(&self) -> Seq<Result<ReceivedFrame<Raw>, Error>> {
        self.frames@
    }
}

/// The report that a frame that was ready is dropped.
pub open spec fn frame_dropped<Raw>(
    result: Result<ReceivedFrame<Raw>, Error>,
    queued_frames: usize,
) -> ReceiveFrameDroppedEvent {
    match result {
        Ok(frame) => ReceiveFrameDroppedEvent {
            reason: ReceiveFrameDropReason::ReadyQueueOverflow,
            ssrc: Some(frame.rtp.ssrc),
            user_id: frame.user_id,
            seq: Some(frame.rtp.seq),
            queued_frames,
            dropped_error: false,
        },
        Err(_) => ReceiveFrameDroppedEvent {
            reason: ReceiveFrameDropReason::ReadyQueueOverflow,
            ssrc: None,
            user_id: None,
            seq: None,
            queued_frames,
            dropped_error: true,
        },
    }
}

/// Whether a result is a frame of one of these sources.
pub open spec fn is_of<Raw>(result: Result<ReceivedFrame<Raw>, Error>, sources: Set<u32>) -> bool {
    result matches Ok(frame) && sources.contains(frame.rtp.ssrc)
}

/// The results that are not frames of these sources.
pub open spec fn kept_frames<Raw>(
    results: Seq<Result<ReceivedFrame<Raw>, Error>>,
    removed: Set<u32>,
) -> Seq<Result<ReceivedFrame<Raw>, Error>>
    decreases results.len(),
{
    if results.len() == 0 {
        seq![]
    } else if is_of(results.last(), removed) {
        kept_frames(results.drop_last(), removed)
    } else {
        kept_frames(results.drop_last(), removed).push(results.last())
    }
}

impl<Raw> ReadyFrameQueue<Raw> {
    pub closed spec fn room(self) -> usize {
        self.frames.room()
    }

    pub fn new(max_frames: usize) -> (queue: Self)
        ensures
            queue@ == Seq::<Result<ReceivedFrame<Raw>, Error>>::empty(),
            queue.room() == max_frames,
    {
        ReadyFrameQueue { frames: BoundedDeque::new(max_frames) }
    }

    pub fn pop_front(&mut self) -> (result: Option<Result<ReceivedFrame<Raw>, Error>>)
        ensures
            final(self).room() == old(self).room(),
            match result {
                Some(result) => old(self)@.len() > 0 && result == old(self)@[0] && final(self)@
                    == old(self)@.drop_first(),
                None => old(self)@.len() == 0 && final(self)@ == old(self)@,
            },
    {
        self.frames.pop_front()
    }

    pub fn len(&self) -> (len: usize)
        ensures
            len == self@.len(),
    {
        self.frames.len()
    }

    pub fn has_capacity(&self) -> (answer: bool)
        ensures
            answer == (self@.len() < self.room()),
    {
        self.frames.has_capacity()
    }

    /// Adds a result, and returns the report that the oldest one is dropped, where it is
    /// and reports are wanted.
    pub fn push(&mut self, result: Result<ReceivedFrame<Raw>, Error>, telemetry: bool) -> (dropped:
        Option<ReceiveFrameDroppedEvent>)
        ensures
            final(self).room() == old(self).room(),
            ({
                let full = old(self)@.len() >= old(self).room() && old(self)@.len() > 0;
                &&& final(self)@ == (if full {
                    old(self)@.drop_first().push(result)
                } else {
                    old(self)@.push(result)
                })
                &&& dropped == (if full && telemetry {
                    Some(frame_dropped(old(self)@[0], (old(self)@.len() - 1) as usize))
                } else {
                    None
                })
            }),
    {
        let queued_before = self.frames.len();
        match self.frames.push_back(result) {
            Some(dropped) => if telemetry {
                Some(Self::dropped_event(&dropped, queued_before - 1))
            } else {
                None
            },
            None => None,
        }
    }

    fn dropped_event(result: &Result<ReceivedFrame<Raw>, Error>, queued_frames: usize) -> (event:
        ReceiveFrameDroppedEvent)
        ensures
            event == frame_dropped(*result, queued_frames),
    {
        match result {
            Ok(frame) => ReceiveFrameDroppedEvent {
                reason: ReceiveFrameDropReason::ReadyQueueOverflow,
                ssrc: Some(frame.rtp.ssrc),
                user_id: frame.user_id,
                seq: Some(frame.rtp.seq),
                queued_frames,
                dropped_error: false,
            },
            Err(_) => ReceiveFrameDroppedEvent {
                reason: ReceiveFrameDropReason::ReadyQueueOverflow,
                ssrc: None,
                user_id: None,
                seq: None,
                queued_frames,
                dropped_error: true,
            },
        }
    }

    /// Forgets the frames of some sources. Errors stay.
    pub fn prune_ssrcs(&mut self, removed_ssrcs: &HashSet<u32>)
        ensures
            final(self)@ == kept_frames(old(self)@, removed_ssrcs@),
            final(self).room() == old(self).room(),
    {
        let mut rest = self.frames.take_all();
        let ghost all = rest@;
        let mut kept: VecDeque<Result<ReceivedFrame<Raw>, Error>> = VecDeque::new();
        let ghost mut done: int = 0;
        assert(rest@ =~= all.skip(0));
        assert(kept@ =~= kept_frames(all.take(0), removed_ssrcs@));
        loop
            invariant
                0 <= done <= all.len(),
                rest@ == all.skip(done),
                kept@ == kept_frames(all.take(done), removed_ssrcs@),
            ensures
                done == all.len(),
            decreases all.len() - done,
        {
            match rest.pop_front() {
                Some(result) => {
                    proof {
                        assert(result == all[done]);
                        assert(all.take(done + 1).drop_last() =~= all.take(done));
                        assert(all.take(done + 1).last() == result);
                    }
                    let removed = match &result {
                        Ok(frame) => removed_ssrcs.contains(&frame.rtp.ssrc),
                        Err(_) => false,
                    };
                    if !removed {
                        kept.push_back(result);
                    }
                    proof {
                        assert(rest@ =~= all.skip(done + 1));
                        done = done + 1;
                    }
                },
                None => {
                    break;
                },
            }
        }
        assert(all.take(done) =~= all);
        self.frames.replace_all(kept);
    }
}

/// What is reported of the way from datagrams to frames.
pub struct ReceiveReports {
    pub rtp: Vec<ReceiveRtpEvent>,
    pub decode_errors: Vec<ReceiveDecodeErrorEvent>,
    pub pending_enqueued: Vec<DavePendingMediaEvent>,
    pub pending_drained: Vec<DavePendingMediaEvent>,
    pub pending_dropped: Vec<DavePendingMediaEvent>,
    pub frames_dropped: Vec<ReceiveFrameDroppedEvent>,
}

/// The same as a mathematical value.
pub struct ReportsView {
    pub rtp: Seq<ReceiveRtpEvent>,
    pub decode_errors: Seq<DecodeErrorView>,
    pub pending_enqueued: Seq<DavePendingMediaEvent>,
    pub pending_drained: Seq<DavePendingMediaEvent>,
    pub pending_dropped: Seq<DavePendingMediaEvent>,
    pub frames_dropped: Seq<ReceiveFrameDroppedEvent>,
}

impl View for ReceiveReports {
    type V = ReportsView;

    open spec fn view(&self) -> ReportsView {
        ReportsView {
            rtp: self.rtp@,
            decode_errors: self.decode_errors@.map_values(
                |event: ReceiveDecodeErrorEvent| event@,
            ),
            pending_enqueued: self.pending_enqueued@,
            pending_drained: self.pending_drained@,
            pending_dropped: self.pending_dropped@,
            frames_dropped: self.frames_dropped@,
        }
    }
}

impl ReportsView {
    pub open spec fn with_decode_error(self, event: DecodeErrorView) -> ReportsView {
        ReportsView { decode_errors: self.decode_errors.push(event), ..self }
    }

    pub open spec fn with_enqueued(self, event: DavePendingMediaEvent) -> ReportsView {
        ReportsView { pending_enqueued: self.pending_enqueued.push(event), ..self }
    }

    pub open spec fn with_drained(self, event: DavePendingMediaEvent) -> ReportsView {
        ReportsView { pending_drained: self.pending_drained.push(event), ..self }
    }

    pub open spec fn with_dropped(self, event: DavePendingMediaEvent) -> ReportsView {
        ReportsView { pending_dropped: self.pending_dropped.push(event), ..self }
    }

    pub open spec fn with_frame_dropped(self, event: ReceiveFrameDroppedEvent) -> ReportsView {
        ReportsView { frames_dropped: self.frames_dropped.push(event), ..self }
    }
}

impl ReceiveReports {
    pub fn new() -> (reports: Self)
        ensures
            reports@ == (ReportsView {
                rtp: seq![],
                decode_errors: seq![],
                pending_enqueued: seq![],
                pending_drained: seq![],
                pending_dropped: seq![],
                frames_dropped: seq![],
            }),
    {
        let reports = ReceiveReports {
            rtp: Vec::new(),
            decode_errors: Vec::new(),
            pending_enqueued: Vec::new(),
            pending_drained: Vec::new(),
            pending_dropped: Vec::new(),
            frames_dropped: Vec::new(),
        };
        assert(reports@.decode_errors =~= Seq::<DecodeErrorView>::empty());
        reports
    }

    pub fn push_decode_error(&mut self, event: ReceiveDecodeErrorEvent)
        ensures
            final(self)@ == old(self)@.with_decode_error(event@),
    {
        self.decode_errors.push(event);
        assert(self@.decode_errors =~= old(self)@.decode_errors.push(event@));
    }
}

} // verus!
