//! Putting frames together out of packets that come in order.

use super::header::RtpHeader;
use super::raw::FrameRaw;
use crate::codec::Codec;
use crate::errors::{Error, RtpError};
use crate::observer::DavePendingMediaReason;
use crate::rtp_payload::depacketize::{read_payload, ParsedRtpPayload};
use crate::rtp_payload::laws::reassembled;
use crate::rtp_payload::RtpChunk;
use crate::state::{PendingMediaFrame, PendingMediaPacket};
use crate::time::Instant;
use std::collections::VecDeque;
use vstd::prelude::*;

verus! {

/// A frame under way, or done, as a mathematical value.
pub struct FrameParts<P> {
    pub packets: Seq<P>,
    pub rtp: RtpHeader,
    pub user_id: Option<u64>,
    pub codec: Codec,
    pub bytes: Seq<u8>,
    pub dave: bool,
    pub last_seq: u16,
}

/// What a packet does to the frame under way: what is under way afterwards, the frames
/// that are done with it, and what was wrong with it.
pub struct Assembly<P> {
    pub partial: Option<FrameParts<P>>,
    pub done: Seq<FrameParts<P>>,
    pub fault: Option<RtpError>,
}

/// Whether a packet is of the same source, codec and kind as a frame.
pub open spec fn same_context<Raw: FrameRaw>(
    frame: FrameParts<Raw::Packet>,
    packet: PendingMediaPacket<Raw>,
) -> bool {
    frame.rtp.ssrc == packet.rtp.ssrc && frame.codec == packet.codec && frame.dave == packet.dave
}

/// Whether a packet is the next one of a frame.
pub open spec fn goes_on<Raw: FrameRaw>(
    frame: FrameParts<Raw::Packet>,
    packet: PendingMediaPacket<Raw>,
) -> bool {
    same_context(frame, packet) && packet.rtp.seq == (frame.last_seq + 1) % 0x1_0000
}

/// An AV1 frame is done when a packet of another time follows.
pub open spec fn done_before<Raw: FrameRaw>(
    frame: FrameParts<Raw::Packet>,
    packet: PendingMediaPacket<Raw>,
) -> bool {
    frame.codec == Codec::Av1 && same_context(frame, packet) && frame.rtp.timestamp
        != packet.rtp.timestamp
}

/// A frame that begins with a packet, before it holds anything of it.
pub open spec fn begun<Raw: FrameRaw>(packet: PendingMediaPacket<Raw>) -> FrameParts<Raw::Packet> {
    FrameParts {
        packets: seq![],
        rtp: packet.rtp,
        user_id: packet.user_id,
        codec: packet.codec,
        bytes: seq![],
        dave: packet.dave,
        last_seq: packet.rtp.seq,
    }
}

/// What a packet does. A frame of the same source that it does not go on with is
/// dropped; a packet from the middle of a frame whose start is missing is dropped.
pub open spec fn assembled<Raw: FrameRaw>(
    partial: Option<FrameParts<Raw::Packet>>,
    packet: PendingMediaPacket<Raw>,
) -> Assembly<Raw::Packet> {
    let early = partial matches Some(frame) && done_before(frame, packet);
    let done = if early {
        seq![partial->0]
    } else {
        seq![]
    };
    let kept = if early {
        None
    } else {
        partial
    };
    let continues = kept matches Some(frame) && goes_on(frame, packet);
    let held = if !continues && (kept matches Some(frame) && same_context(frame, packet)) {
        None
    } else {
        kept
    };
    match read_payload(packet.codec, packet.encrypted_payload@, packet.rtp.marker, continues) {
        Err(error) => Assembly { partial: held, done, fault: Some(error) },
        Ok((boundary, body)) => if !continues && !boundary.starts_frame {
            Assembly { partial: held, done, fault: None }
        } else {
            let extends = continues && !boundary.starts_frame;
            let base = if extends {
                held->0
            } else {
                begun(packet)
            };
            let rest = if extends {
                None
            } else {
                held
            };
            match body.adds().1 {
                Some(error) => Assembly { partial: rest, done, fault: Some(error) },
                None => {
                    let grown = FrameParts {
                        packets: base.packets.push(packet.raw),
                        rtp: base.rtp,
                        user_id: base.user_id,
                        codec: base.codec,
                        bytes: base.bytes + body.adds().0,
                        dave: base.dave,
                        last_seq: packet.rtp.seq,
                    };
                    if boundary.completes_frame {
                        Assembly { partial: rest, done: done.push(grown), fault: None }
                    } else {
                        Assembly { partial: Some(grown), done, fault: None }
                    }
                },
            }
        },
    }
}

/// Whether a pending frame is that frame, done at `now`.
pub open spec fn is_frame<Raw: FrameRaw>(
    pending: PendingMediaFrame<Raw>,
    frame: FrameParts<Raw::Packet>,
    now: Instant,
) -> bool {
    &&& pending.raw.made_of(frame.packets)
    &&& pending.rtp == frame.rtp
    &&& pending.user_id == frame.user_id
    &&& pending.codec == frame.codec
    &&& pending.encrypted_frame@ == frame.bytes
    &&& pending.dave == frame.dave
    &&& pending.enqueued_at == now
    &&& pending.reason == DavePendingMediaReason::DecryptStatePending
    &&& !pending.was_pending
}

/// Whether `after` is `before` with these frames behind it, done at `now`.
pub open spec fn with_frames<Raw: FrameRaw>(
    before: Seq<PendingMediaFrame<Raw>>,
    after: Seq<PendingMediaFrame<Raw>>,
    frames: Seq<FrameParts<Raw::Packet>>,
    now: Instant,
) -> bool {
    &&& after.len() == before.len() + frames.len()
    &&& after.take(before.len() as int) == before
    &&& forall|i: int|
        0 <= i < frames.len() ==> is_frame(
            after[before.len() + i],
            #[trigger] frames[i],
            now,
        )
}

/// The frames at hand once the first of them, if it was taken, is put back.
pub open spec fn put_back<Raw: FrameRaw>(
    taken: Option<PendingMediaFrame<Raw>>,
    left: Seq<PendingMediaFrame<Raw>>,
) -> Seq<PendingMediaFrame<Raw>> {
    match taken {
        Some(frame) => seq![frame] + left,
        None => left,
    }
}

/// Whether taking a packet turned one state of the assembler into the other, with that
/// result: the frame under way, and the frames that wait.
pub open spec fn pushed<Raw: FrameRaw>(
    before: (Option<FrameParts<Raw::Packet>>, Seq<PendingMediaFrame<Raw>>),
    after: (Option<FrameParts<Raw::Packet>>, Seq<PendingMediaFrame<Raw>>),
    packet: PendingMediaPacket<Raw>,
    now: Instant,
    result: Result<Option<PendingMediaFrame<Raw>>, Error>,
) -> bool {
    let step = assembled(before.0, packet);
    &&& after.0 == step.partial
    &&& match step.fault {
        Some(error) => {
            &&& result == Err::<Option<PendingMediaFrame<Raw>>, Error>(Error::Rtp(error))
            &&& with_frames(before.1, after.1, step.done, now)
        },
        None => {
            &&& result matches Ok(taken)
            &&& with_frames(before.1, put_back(taken, after.1), step.done, now)
            &&& taken is None ==> after.1.len() == 0
        },
    }
}

pub struct PartialRtpFrame<Raw> where Raw: FrameRaw {
    raw_packets: Vec<Raw::Packet>,
    rtp: RtpHeader,
    user_id: Option<u64>,
    codec: Codec,
    encrypted_frame: Vec<u8>,
    dave: bool,
    last_seq: u16,
}

impl<Raw> PartialRtpFrame<Raw> where Raw: FrameRaw {
    pub closed spec fn parts(self) -> FrameParts<Raw::Packet> {
        FrameParts {
            packets: self.raw_packets@,
            rtp: self.rtp,
            user_id: self.user_id,
            codec: self.codec,
            bytes: self.encrypted_frame@,
            dave: self.dave,
            last_seq: self.last_seq,
        }
    }

    fn new(packet: &PendingMediaPacket<Raw>) -> (frame: Self)
        ensures
            frame.parts() == begun(*packet),
    {
        let frame = PartialRtpFrame {
            raw_packets: Vec::new(),
            rtp: packet.rtp,
            user_id: packet.user_id,
            codec: packet.codec,
            encrypted_frame: Vec::new(),
            dave: packet.dave,
            last_seq: packet.rtp.seq,
        };
        assert(frame.raw_packets@ =~= seq![]);
        assert(frame.encrypted_frame@ =~= seq![]);
        frame
    }

    fn matches_context(&self, packet: &PendingMediaPacket<Raw>) -> (answer: bool)
        ensures
            answer == same_context(self.parts(), *packet),
    {
        self.rtp.ssrc == packet.rtp.ssrc && self.codec == packet.codec && self.dave == packet.dave
    }

    fn accepts_next(&self, packet: &PendingMediaPacket<Raw>) -> (answer: bool)
        ensures
            answer == goes_on(self.parts(), *packet),
    {
        self.matches_context(packet) && packet.rtp.seq == self.last_seq.wrapping_add(1)
    }

    fn should_complete_before(&self, packet: &PendingMediaPacket<Raw>) -> (answer: bool)
        ensures
            answer == done_before(self.parts(), *packet),
    {
        self.codec == Codec::Av1 && self.matches_context(packet) && self.rtp.timestamp
            != packet.rtp.timestamp
    }

    fn into_pending(self, now: Instant) -> (frame: PendingMediaFrame<Raw>)
        ensures
            is_frame(frame, self.parts(), now),
    {
        PendingMediaFrame {
            raw: Raw::from_rtp_packets(self.raw_packets),
            rtp: self.rtp,
            user_id: self.user_id,
            codec: self.codec,
            encrypted_frame: self.encrypted_frame,
            dave: self.dave,
            enqueued_at: now,
            reason: DavePendingMediaReason::DecryptStatePending,
            was_pending: false,
        }
    }
}

/// Puts the frames of one source together.
pub struct RtpFrameAssembler<Raw> where Raw: FrameRaw {
    partial: Option<PartialRtpFrame<Raw>>,
    completed: VecDeque<PendingMediaFrame<Raw>>,
}

impl<Raw> RtpFrameAssembler<Raw> where Raw: FrameRaw {
    /// The frame under way.
    pub closed spec fn under_way(self) -> Option<FrameParts<Raw::Packet>> {
        match self.partial {
            Some(frame) => Some(frame.parts()),
            None => None,
        }
    }

    /// The frames that are done and not taken yet.
    pub closed spec fn waiting(self) -> Seq<PendingMediaFrame<Raw>> {
        self.completed@
    }

    pub fn new() -> (assembler: Self)
        ensures
            assembler.under_way() is None,
            assembler.waiting() == Seq::<PendingMediaFrame<Raw>>::empty(),
    {
        RtpFrameAssembler { partial: None, completed: VecDeque::new() }
    }

    /// Takes a packet, and gives out the first frame that is done, if one is. A packet
    /// that cannot be read is refused; frames that were done stay.
    pub fn push_packet(&mut self, packet: PendingMediaPacket<Raw>, now: Instant) -> (frame: Result<
        Option<PendingMediaFrame<Raw>>,
        Error,
    >)
        ensures
            pushed(
                (old(self).under_way(), old(self).waiting()),
                (final(self).under_way(), final(self).waiting()),
                packet,
                now,
                frame,
            ),
    {
        let ghost step = assembled(old(self).under_way(), packet);
        let ghost before = self.completed@;
        let mut held: Option<PartialRtpFrame<Raw>> = self.partial.take();
        let early = match &held {
            Some(partial) => partial.should_complete_before(&packet),
            None => false,
        };
        if early {
            if let Some(partial) = held.take() {
                self.completed.push_back(partial.into_pending(now));
            }
        }
        let ghost done = if early {
            seq![old(self).under_way()->0]
        } else {
            seq![]
        };
        let ghost middle = self.completed@;
        assert(with_frames(before, middle, done, now)) by {
            assert(middle.take(before.len() as int) =~= before);
        }
        let continues_partial = match &held {
            Some(partial) => partial.accepts_next(&packet),
            None => false,
        };
        let matching = match &held {
            Some(partial) => partial.matches_context(&packet),
            None => false,
        };
        if !continues_partial && matching {
            held = None;
        }
        let payload = match ParsedRtpPayload::parse(
            packet.codec,
            packet.encrypted_payload.as_slice(),
            packet.rtp.marker,
            continues_partial,
        ) {
            Ok(payload) => payload,
            Err(error) => {
                self.partial = held;
                return Err(Error::Rtp(error));
            },
        };
        let boundary = payload.boundary();
        if !continues_partial && !boundary.starts_frame {
            self.partial = held;
            return Ok(self.pop_front());
        }
        let mut frame = if continues_partial && !boundary.starts_frame {
            match held.take() {
                Some(partial) => partial,
                None => PartialRtpFrame::new(&packet),
            }
        } else {
            PartialRtpFrame::new(&packet)
        };
        match payload.append_depacketized(&mut frame.encrypted_frame) {
            Ok(()) => {},
            Err(error) => {
                self.partial = held;
                return Err(Error::Rtp(error));
            },
        }
        frame.last_seq = packet.rtp.seq;
        frame.raw_packets.push(packet.raw);
        if boundary.completes_frame {
            self.partial = held;
            let ghost grown = frame.parts();
            self.completed.push_back(frame.into_pending(now));
            proof {
                let after = self.completed@;
                let all = done.push(grown);
                assert(after.take(before.len() as int) =~= middle.take(before.len() as int));
                assert forall|i: int| 0 <= i < all.len() implies is_frame(
                    after[before.len() + i],
                    #[trigger] all[i],
                    now,
                ) by {
                    if i < done.len() {
                        assert(is_frame(middle[before.len() + i], done[i], now));
                    }
                }
                assert(with_frames(before, after, step.done, now));
            }
        } else {
            self.partial = Some(frame);
        }
        Ok(self.pop_front())
    }

    fn pop_front(&mut self) -> (frame: Option<PendingMediaFrame<Raw>>)
        ensures
            final(self).under_way() == old(self).under_way(),
            put_back(frame, final(self).waiting()) == old(self).waiting(),
            frame is None ==> final(self).waiting().len() == 0,
    {
        let frame = self.completed.pop_front();
        assert(put_back(frame, self.completed@) =~= old(self).completed@);
        frame
    }

    /// Takes the first frame that is done.
    pub fn pop_completed(&mut self) -> (frame: Option<PendingMediaFrame<Raw>>)
        ensures
            final(self).under_way() == old(self).under_way(),
            put_back(frame, final(self).waiting()) == old(self).waiting(),
            frame is None ==> final(self).waiting().len() == 0,
    {
        self.pop_front()
    }

    pub fn has_completed_frame(&self) -> (answer: bool)
        ensures
            answer == (self.waiting().len() > 0),
    {
        self.completed.len() > 0
    }

    /// Forgets every frame, under way or done.
    pub fn clear(&mut self)
        ensures
            final(self).under_way() is None,
            final(self).waiting().len() == 0,
    {
        self.partial = None;
        self.completed.clear();
    }
}

/// What a row of packets does, taken one after the other, up to the first that is
/// refused.
pub open spec fn assembled_all<Raw: FrameRaw>(
    partial: Option<FrameParts<Raw::Packet>>,
    packets: Seq<PendingMediaPacket<Raw>>,
) -> Assembly<Raw::Packet>
    decreases packets.len(),
{
    if packets.len() == 0 {
        Assembly { partial, done: seq![], fault: None }
    } else {
        let step = assembled(partial, packets[0]);
        if step.fault is Some {
            step
        } else {
            let rest = assembled_all(step.partial, packets.drop_first());
            Assembly { partial: rest.partial, done: step.done + rest.done, fault: rest.fault }
        }
    }
}

/// Whether packets carry these payloads, in order and without a gap, for one frame of
/// one source.
pub open spec fn carry<Raw: FrameRaw>(
    packets: Seq<PendingMediaPacket<Raw>>,
    chunks: Seq<RtpChunk>,
    codec: Codec,
    dave: bool,
    first: RtpHeader,
) -> bool {
    &&& packets.len() == chunks.len()
    &&& forall|i: int|
        0 <= i < packets.len() ==> {
            &&& (#[trigger] packets[i]).encrypted_payload@ == chunks[i].payload
            &&& packets[i].rtp.marker == chunks[i].marker
            &&& packets[i].codec == codec
            &&& packets[i].dave == dave
            &&& packets[i].rtp.ssrc == first.ssrc
            &&& packets[i].rtp.timestamp == first.timestamp
            &&& packets[i].rtp.seq == (first.seq + i) % 0x1_0000
        }
}

proof fn lemma_carried_on<Raw: FrameRaw>(
    packets: Seq<PendingMediaPacket<Raw>>,
    chunks: Seq<RtpChunk>,
    codec: Codec,
    dave: bool,
    first: RtpHeader,
)
    requires
        carry(packets, chunks, codec, dave, first),
        packets.len() > 0,
    ensures
        carry(
            packets.drop_first(),
            chunks.drop_first(),
            codec,
            dave,
            RtpHeader { seq: ((first.seq + 1) % 0x1_0000) as u16, ..first },
        ),
{
    let rest = packets.drop_first();
    let next = RtpHeader { seq: ((first.seq + 1) % 0x1_0000) as u16, ..first };
    assert forall|i: int| 0 <= i < rest.len() implies {
        &&& (#[trigger] rest[i]).encrypted_payload@ == chunks.drop_first()[i].payload
        &&& rest[i].rtp.marker == chunks.drop_first()[i].marker
        &&& rest[i].codec == codec
        &&& rest[i].dave == dave
        &&& rest[i].rtp.ssrc == next.ssrc
        &&& rest[i].rtp.timestamp == next.timestamp
        &&& rest[i].rtp.seq == (next.seq + i) % 0x1_0000
    } by {
        assert(rest[i] == packets[i + 1]);
    }
}

proof fn lemma_assembled_from<Raw: FrameRaw>(
    partial: Option<FrameParts<Raw::Packet>>,
    packets: Seq<PendingMediaPacket<Raw>>,
    chunks: Seq<RtpChunk>,
    codec: Codec,
    dave: bool,
    first: RtpHeader,
    before: Seq<u8>,
    frame: Seq<u8>,
)
    requires
        carry(packets, chunks, codec, dave, first),
        packets.len() > 0,
        partial matches Some(parts) ==> {
            &&& parts.bytes == before
            &&& parts.codec == codec
            &&& parts.dave == dave
            &&& parts.rtp.ssrc == first.ssrc
            &&& parts.rtp.timestamp == first.timestamp
            &&& first.seq == (parts.last_seq + 1) % 0x1_0000
        },
        reassembled(codec, chunks, before, partial is Some) == Some((frame, false)),
    ensures
        assembled_all(partial, packets).fault is None,
        assembled_all(partial, packets).done.len() == 1,
        assembled_all(partial, packets).done[0].bytes == frame,
        assembled_all(partial, packets).done[0].codec == codec,
        assembled_all(partial, packets).done[0].dave == dave,
        assembled_all(partial, packets).done[0].rtp.ssrc == first.ssrc,
        assembled_all(partial, packets).done[0].rtp.timestamp == first.timestamp,
    decreases packets.len(),
{
    let packet = packets[0];
    let step = assembled(partial, packet);
    let continues = partial is Some;
    assert(first.seq as int % 0x1_0000 == first.seq);
    let (boundary, body) = read_payload(
        codec,
        chunks[0].payload,
        chunks[0].marker,
        continues,
    )->Ok_0;
    let base = if boundary.starts_frame {
        Seq::<u8>::empty()
    } else {
        before
    };
    let grown = base + body.adds().0;
    let rest = packets.drop_first();
    assert(reassembled(codec, chunks.drop_first(), grown, !boundary.completes_frame) == Some(
        (frame, false),
    ));
    if boundary.completes_frame {
        assert(chunks.drop_first() =~= seq![]);
        assert(step.done.len() == 1 && step.done[0].bytes == grown);
        assert(rest =~= seq![]);
        assert(assembled_all(step.partial, rest).done =~= seq![]);
        assert(step.done + assembled_all(step.partial, rest).done =~= step.done);
    } else {
        assert(step.done.len() == 0);
        assert(step.partial is Some && step.partial->0.bytes == grown);
        if rest.len() == 0 {
            assert(chunks.drop_first() =~= seq![]);
            assert(false);
        }
        let next = RtpHeader { seq: ((first.seq + 1) % 0x1_0000) as u16, ..first };
        lemma_carried_on(packets, chunks, codec, dave, first);
        lemma_assembled_from(
            step.partial,
            rest,
            chunks.drop_first(),
            codec,
            dave,
            next,
            grown,
            frame,
        );
        assert(step.done + assembled_all(step.partial, rest).done =~= assembled_all(
            step.partial,
            rest,
        ).done);
    }
}

/// Packets that come in order, without a gap, give the frame back that they carry: one
/// frame, with the bytes that their payloads reassemble to, and no error.
pub proof fn law_packets_in_order_give_the_frame<Raw: FrameRaw>(
    packets: Seq<PendingMediaPacket<Raw>>,
    chunks: Seq<RtpChunk>,
    codec: Codec,
    dave: bool,
    first: RtpHeader,
    frame: Seq<u8>,
)
    requires
        carry(packets, chunks, codec, dave, first),
        packets.len() > 0,
        reassembled(codec, chunks, Seq::<u8>::empty(), false) == Some((frame, false)),
    ensures
        ({
            let result = assembled_all::<Raw>(None, packets);
            &&& result.fault is None
            &&& result.done.len() == 1
            &&& result.done[0].bytes == frame
            &&& result.done[0].codec == codec
            &&& result.done[0].dave == dave
            &&& result.done[0].rtp.ssrc == first.ssrc
            &&& result.done[0].rtp.timestamp == first.timestamp
        }),
{
    lemma_assembled_from::<Raw>(
        None,
        packets,
        chunks,
        codec,
        dave,
        first,
        Seq::<u8>::empty(),
        frame,
    );
}

/// A packet from the middle of a frame whose start is missing adds nothing and gives
/// nothing, once it can be read.
pub proof fn law_frames_without_a_start_are_dropped<Raw: FrameRaw>(
    packet: PendingMediaPacket<Raw>,
)
    requires
        read_payload(
            packet.codec,
            packet.encrypted_payload@,
            packet.rtp.marker,
            false,
        ) matches Ok((boundary, _)) && !boundary.starts_frame,
    ensures
        ({
            let step = assembled::<Raw>(None, packet);
            step.partial is None && step.done.len() == 0 && step.fault is None
        }),
{
}

} // verus!
