//! The way from datagrams to frames, up to the end-to-end encryption and from there on.

use super::receive::{ReadyFrameQueue, ReceiveReports, ReportsView};
use super::receive::{limit_raw_packet_result, LowLevelReceiveKind};
use crate::codec::{Codec, MediaType};
use crate::codecs::detects;
use crate::errors::{DaveDecryptError, DaveError, Error, ProtocolError, UnsupportedCodecError};
use crate::media::crypto::XCHACHA20_MAX_TEXT;
use crate::media::{
    FrameRaw, RawUdpPacket, RawUdpPacketInfo, ReceivedFrame, RtpHeader, TransportCrypto,
};
use crate::observer::{
    decode_report, receive_decode_error, DavePendingMediaEvent, DavePendingMediaReason,
    ReceiveDecodeContext, ReceiveDecodeErrorKind, ReceiveDecodeStage,
};
use crate::queue::due_by;
use crate::state::connection::StateView;
use crate::state::dave::{DaveInternalState, DaveView};
use crate::state::receive::PendingDaveMediaQueues;
use crate::state::sources::packet_taken;
use crate::state::{
    ConnectionInternalState, ConnectionTuning, DavePendingMediaBucket, DavePendingMediaRetry,
    PendingMediaFrame, PendingMediaPacket, ReceiveState,
};
use crate::time::Instant;
use std::collections::{HashSet, VecDeque};
use vstd::prelude::*;

verus! {

/// Callers that wait for datagrams, by their ids, with the most bytes that they take.
pub struct UdpPacketReceives {
    raw: VecDeque<(u64, usize)>,
    rtp: VecDeque<(u64, usize)>,
}

/// What a caller gets of a datagram.
pub open spec fn packet_for(
    max_len: usize,
    kind: LowLevelReceiveKind,
    bytes: Seq<u8>,
    info: RawUdpPacketInfo,
    result: Result<RawUdpPacket, Error>,
) -> bool {
    if bytes.len() > max_len {
        result == Err::<RawUdpPacket, Error>(
            Error::PayloadTooLarge {
                kind: kind.kind_of_payload(),
                len: bytes.len() as usize,
                max_len,
            },
        )
    } else {
        result matches Ok(packet) && packet.bytes@ == bytes && packet.info == info
    }
}

/// What comes of a datagram for those who wait: the first one of each kind that takes it
/// gets it, and waits no longer.
pub open spec fn datagram_given(
    before: UdpPacketReceives,
    after: UdpPacketReceives,
    info: RawUdpPacketInfo,
    bytes: Seq<u8>,
    given: Seq<(u64, Result<RawUdpPacket, Error>)>,
) -> bool {
    let raw = before.waiting(LowLevelReceiveKind::RawUdp);
    let rtp = before.waiting(LowLevelReceiveKind::RtpUdp);
    let to_raw: int = if raw.len() > 0 {
        1
    } else {
        0
    };
    let to_rtp: int = if rtp.len() > 0 && !info.rtcp() {
        1
    } else {
        0
    };
    &&& given.len() == to_raw + to_rtp
    &&& after.waiting(LowLevelReceiveKind::RawUdp) == raw.skip(to_raw)
    &&& after.waiting(LowLevelReceiveKind::RtpUdp) == rtp.skip(to_rtp)
    &&& to_raw == 1 ==> given[0].0 == raw[0].0 && packet_for(
        raw[0].1,
        LowLevelReceiveKind::RawUdp,
        bytes,
        info,
        given[0].1,
    )
    &&& to_rtp == 1 ==> given[to_raw].0 == rtp[0].0 && packet_for(
        rtp[0].1,
        LowLevelReceiveKind::RtpUdp,
        bytes,
        info,
        given[to_raw].1,
    )
}

impl UdpPacketReceives {
    /// Those who wait for datagrams of a kind.
    pub closed spec fn waiting(self, kind: LowLevelReceiveKind) -> Seq<(u64, usize)> {
        match kind {
            LowLevelReceiveKind::RawUdp => self.raw@,
            LowLevelReceiveKind::RtpUdp => self.rtp@,
        }
    }

    pub fn new() -> (receives: Self)
        ensures
            forall|kind: LowLevelReceiveKind| #[trigger] receives.waiting(kind).len() == 0,
    {
        UdpPacketReceives { raw: VecDeque::new(), rtp: VecDeque::new() }
    }

    pub fn push(&mut self, kind: LowLevelReceiveKind, id: u64, max_len: usize)
        ensures
            forall|other: LowLevelReceiveKind| #[trigger]
                final(self).waiting(other) == (if other == kind {
                    old(self).waiting(other).push((id, max_len))
                } else {
                    old(self).waiting(other)
                }),
    {
        match kind {
            LowLevelReceiveKind::RawUdp => self.raw.push_back((id, max_len)),
            LowLevelReceiveKind::RtpUdp => self.rtp.push_back((id, max_len)),
        }
    }

    pub fn pop(&mut self, kind: LowLevelReceiveKind) -> (receive: Option<(u64, usize)>)
        ensures
            match receive {
                Some(receive) => {
                    &&& old(self).waiting(kind).len() > 0
                    &&& receive == old(self).waiting(kind)[0]
                    &&& final(self).waiting(kind) == old(self).waiting(kind).drop_first()
                },
                None => {
                    &&& old(self).waiting(kind).len() == 0
                    &&& final(self).waiting(kind) == old(self).waiting(kind)
                },
            },
            forall|other: LowLevelReceiveKind|
                other != kind ==> #[trigger] final(self).waiting(other) == old(self).waiting(other),
    {
        let ghost before = self.waiting(kind);
        let receive = match kind {
            LowLevelReceiveKind::RawUdp => self.raw.pop_front(),
            LowLevelReceiveKind::RtpUdp => self.rtp.pop_front(),
        };
        assert(receive is Some ==> self.waiting(kind) =~= before.drop_first());
        receive
    }

    /// Gives a datagram to the first caller of each kind that takes it. Says who gets what.
    pub fn resolve(&mut self, info: RawUdpPacketInfo, bytes: &[u8]) -> (given: Vec<
        (u64, Result<RawUdpPacket, Error>),
    >)
        ensures
            datagram_given(*old(self), *final(self), info, bytes@, given@),
    {
        let ghost raw = self.waiting(LowLevelReceiveKind::RawUdp);
        let ghost rtp = self.waiting(LowLevelReceiveKind::RtpUdp);
        let mut given: Vec<(u64, Result<RawUdpPacket, Error>)> = Vec::new();
        self.resolve_kind(LowLevelReceiveKind::RawUdp, info, bytes, &mut given);
        self.resolve_kind(LowLevelReceiveKind::RtpUdp, info, bytes, &mut given);
        proof {
            assert(raw.skip(0) =~= raw);
            assert(rtp.skip(0) =~= rtp);
            if raw.len() > 0 {
                assert(raw.skip(1) =~= raw.drop_first());
            }
            if rtp.len() > 0 {
                assert(rtp.skip(1) =~= rtp.drop_first());
            }
        }
        given
    }

    fn resolve_kind(
        &mut self,
        kind: LowLevelReceiveKind,
        info: RawUdpPacketInfo,
        bytes: &[u8],
        given: &mut Vec<(u64, Result<RawUdpPacket, Error>)>,
    )
        ensures
            forall|other: LowLevelReceiveKind|
                other != kind ==> #[trigger] final(self).waiting(other) == old(self).waiting(other),
            ({
                let waiting = old(self).waiting(kind);
                if waiting.len() > 0 && kind.takes(info) {
                    &&& final(self).waiting(kind) == waiting.drop_first()
                    &&& final(given)@.len() == old(given)@.len() + 1
                    &&& final(given)@.take(old(given)@.len() as int) == old(given)@
                    &&& final(given)@.last().0 == waiting[0].0
                    &&& packet_for(waiting[0].1, kind, bytes@, info, final(given)@.last().1)
                } else {
                    &&& final(self).waiting(kind) == waiting
                    &&& final(given)@ == old(given)@
                }
            }),
    {
        if !kind.accepts(info) {
            return;
        }
        if let Some((id, max_len)) = self.pop(kind) {
            let packet = info.into_raw_packet(bytes);
            let result = limit_raw_packet_result(packet, max_len, kind.payload_kind());
            given.push((id, result));
            assert(given@.take(old(given)@.len() as int) =~= old(given)@);
        }
    }

    /// Forgets the callers of a kind that no longer wait.
    pub fn discard(&mut self, kind: LowLevelReceiveKind, gone: &HashSet<u64>)
        ensures
            final(self).waiting(kind) == still_waiting(old(self).waiting(kind), gone@),
            forall|other: LowLevelReceiveKind|
                other != kind ==> #[trigger] final(self).waiting(other) == old(self).waiting(other),
    {
        match kind {
            LowLevelReceiveKind::RawUdp => discard_from(&mut self.raw, gone),
            LowLevelReceiveKind::RtpUdp => discard_from(&mut self.rtp, gone),
        }
    }

    /// Takes every caller of a kind.
    pub fn take_all(&mut self, kind: LowLevelReceiveKind) -> (ids: Vec<u64>)
        ensures
            ids@ == old(self).waiting(kind).map_values(|receive: (u64, usize)| receive.0),
            final(self).waiting(kind).len() == 0,
            forall|other: LowLevelReceiveKind|
                other != kind ==> #[trigger] final(self).waiting(other) == old(self).waiting(other),
    {
        let ghost all = self.waiting(kind);
        let mut ids: Vec<u64> = Vec::new();
        let ghost mut done: int = 0;
        assert(all.skip(0) =~= all);
        loop
            invariant
                0 <= done <= all.len(),
                self.waiting(kind) == all.skip(done),
                ids@ == all.take(done).map_values(|receive: (u64, usize)| receive.0),
                forall|other: LowLevelReceiveKind|
                    other != kind ==> #[trigger] self.waiting(other) == old(self).waiting(other),
            ensures
                done == all.len(),
            decreases all.len() - done,
        {
            match self.pop(kind) {
                Some((id, _)) => {
                    ids.push(id);
                    proof {
                        assert(all.skip(done).drop_first() =~= all.skip(done + 1));
                        assert(all.take(done + 1).map_values(|receive: (u64, usize)| receive.0)
                            =~= all.take(done).map_values(
                            |receive: (u64, usize)| receive.0,
                        ).push(id));
                        done = done + 1;
                    }
                },
                None => {
                    break;
                },
            }
        }
        assert(all.take(done) =~= all);
        ids
    }
}

/// Those who are not gone.
pub open spec fn still_waiting(receives: Seq<(u64, usize)>, gone: Set<u64>) -> Seq<(u64, usize)>
    decreases receives.len(),
{
    if receives.len() == 0 {
        seq![]
    } else if gone.contains(receives.last().0) {
        still_waiting(receives.drop_last(), gone)
    } else {
        still_waiting(receives.drop_last(), gone).push(receives.last())
    }
}

fn discard_from(receives: &mut VecDeque<(u64, usize)>, gone: &HashSet<u64>)
    ensures
        final(receives)@ == still_waiting(old(receives)@, gone@),
{
    broadcast use vstd::std_specs::hash::group_hash_axioms;

    let ghost all = receives@;
    let len = receives.len();
    let mut kept: VecDeque<(u64, usize)> = VecDeque::new();
    let mut i: usize = 0;
    assert(kept@ =~= still_waiting(all.take(0), gone@));
    while i < len
        invariant
            len == receives@.len(),
            receives@ == all,
            i <= len,
            kept@ == still_waiting(all.take(i as int), gone@),
        decreases len - i,
    {
        broadcast use vstd::std_specs::hash::group_hash_axioms;

        assert(all.take(i + 1).drop_last() =~= all.take(i as int));
        let receive: (u64, usize) = receives[i];
        if !gone.contains(&receive.0) {
            kept.push_back(receive);
        }
        i = i + 1;
    }
    assert(all.take(i as int) =~= all);
    *receives = kept;
}

/// Everything that is received on one connection.
pub struct ReceivePipeline<Raw> where Raw: FrameRaw {
    pub state: ReceiveState<Raw>,
    pub ready_frames: ReadyFrameQueue<Raw>,
    pub packet_receives: UdpPacketReceives,
    pub next_receive_id: u64,
}

/// What comes of media that is tried again.
pub enum RetriedMedia<Raw> {
    /// Nothing is left to be tried.
    Nothing,
    /// It waited too long.
    Expired,
    Media(PendingMediaFrame<Raw>),
}

/// The report that media waits, or waits no longer.
pub open spec fn pending_event<Raw>(
    media: PendingMediaFrame<Raw>,
    pending_packets: usize,
    reason: DavePendingMediaReason,
    now: Instant,
) -> DavePendingMediaEvent {
    DavePendingMediaEvent {
        reason,
        ssrc: media.rtp.ssrc,
        user_id: media.user_id,
        seq: media.rtp.seq,
        pending_packets,
        age_ms: now.elapsed_since(media.enqueued_at).in_ms(),
    }
}

/// How much media waits, as far as a number can say.
pub open spec fn shown_total<Raw>(media: PendingDaveMediaQueues<Raw>) -> usize {
    if media.total() > usize::MAX {
        usize::MAX
    } else {
        media.total() as usize
    }
}

/// Whether only the media that waits is another.
pub open spec fn sources_kept<Raw: FrameRaw>(
    before: ReceiveState<Raw>,
    after: ReceiveState<Raw>,
) -> bool {
    &&& after.sources() == before.sources()
    &&& after.line() == before.line()
    &&& after.limits() == before.limits()
    &&& before.well_formed() ==> after.well_formed()
}

/// Whether media was put among what waits for that reason, with a report where it is new.
pub open spec fn media_waits<Raw: FrameRaw>(
    before: ReceiveState<Raw>,
    after: ReceiveState<Raw>,
    media: PendingMediaFrame<Raw>,
    reason: DavePendingMediaReason,
    now: Instant,
    telemetry: bool,
    old_reports: ReportsView,
    new_reports: ReportsView,
) -> bool {
    let held = PendingMediaFrame { reason, ..media };
    let bucket = DavePendingMediaBucket::of_reason(reason)->0;
    let deadline = media.enqueued_at.later(before.waiting_media().patience());
    let items = before.waiting_media().bucket(bucket);
    &&& sources_kept(before, after)
    &&& after.waiting_media().changed(
        before.waiting_media(),
        bucket,
        items.insert(due_by(items, deadline), (deadline, held)),
    )
    &&& new_reports == (if telemetry && !media.was_pending {
        old_reports.with_enqueued(
            pending_event(held, shown_total(after.waiting_media()), reason, now),
        )
    } else {
        old_reports
    })
}

/// What keeps media from being decrypted: its user is not known, the session is not ready,
/// or the gateway has something under way other than a first transition that is ready.
pub open spec fn media_gate(
    state: StateView,
    ssrc: u32,
    transition_ready: Option<u16>,
    session_ready: bool,
) -> Option<DavePendingMediaReason> {
    if !state.users.dom().contains(ssrc) {
        Some(DavePendingMediaReason::MissingUser)
    } else if !session_ready {
        Some(DavePendingMediaReason::SessionNotReady)
    } else if !state.dave.settled() && !(state.dave.transition_id == Some(0u16) && transition_ready
        == Some(0u16)) {
        Some(DavePendingMediaReason::GatewayPending)
    } else {
        None
    }
}

/// With the user who is known for its source now.
pub open spec fn with_user<Raw>(media: PendingMediaFrame<Raw>, state: StateView) ->
    PendingMediaFrame<Raw> {
    PendingMediaFrame {
        user_id: if state.users.dom().contains(media.rtp.ssrc) {
            Some(state.users[media.rtp.ssrc])
        } else {
            None
        },
        ..media
    }
}

/// What comes of media that is to be decrypted: it is let through, with the user who is known
/// for its source, or it waits.
pub open spec fn media_admitted<Raw: FrameRaw>(
    before: ReceiveState<Raw>,
    after: ReceiveState<Raw>,
    media: PendingMediaFrame<Raw>,
    state: StateView,
    transition_ready: Option<u16>,
    session_ready: bool,
    now: Instant,
    telemetry: bool,
    old_reports: ReportsView,
    new_reports: ReportsView,
    admitted: Option<PendingMediaFrame<Raw>>,
) -> bool {
    match media_gate(state, media.rtp.ssrc, transition_ready, session_ready) {
        None => {
            &&& admitted == Some(with_user(media, state))
            &&& after == before
            &&& new_reports == old_reports
        },
        Some(reason) => {
            &&& admitted is None
            &&& media_waits(
                before,
                after,
                with_user(media, state),
                reason,
                now,
                telemetry,
                old_reports,
                new_reports,
            )
        },
    }
}

/// What comes of media that the session has decrypted, or could not: a frame, an error, or
/// nothing yet.
pub open spec fn media_finished<Raw: FrameRaw>(
    before: ReceiveState<Raw>,
    after: ReceiveState<Raw>,
    media: PendingMediaFrame<Raw>,
    decrypted: Result<Vec<u8>, DaveDecryptError>,
    state_can_still_change: bool,
    now: Instant,
    telemetry: bool,
    old_reports: ReportsView,
    new_reports: ReportsView,
    result: Option<Result<ReceivedFrame<Raw>, Error>>,
) -> bool {
    match decrypted {
        Ok(frame) => {
            &&& after == before
            &&& result matches Some(Ok(received)) && is_frame(received, media, frame)
            &&& new_reports == (if telemetry && media.was_pending {
                old_reports.with_drained(
                    pending_event(
                        media,
                        shown_total(before.waiting_media()),
                        media.reason,
                        now,
                    ),
                )
            } else {
                old_reports
            })
        },
        Err(error) => {
            let told = if telemetry {
                old_reports.with_decode_error(
                    decode_report(
                        ReceiveDecodeStage::DaveDecrypt,
                        error.decode_kind(),
                        (ReceiveDecodeContext {
                            ssrc: Some(media.rtp.ssrc),
                            user_id: media.user_id,
                            seq: Some(media.rtp.seq),
                        }),
                        Error::Dave(DaveError::Decrypt(error)),
                    ),
                )
            } else {
                old_reports
            };
            let ttl = before.limits().dave_pending_media_ttl;
            if now.elapsed_since(media.enqueued_at).nanos < ttl.nanos
                && error.decode_kind().curable() && state_can_still_change {
                &&& result is None
                &&& media_waits(
                    before,
                    after,
                    media,
                    if error.no_valid_cryptor() {
                        DavePendingMediaReason::NoValidCryptorPending
                    } else {
                        DavePendingMediaReason::DecryptStatePending
                    },
                    now,
                    telemetry,
                    told,
                    new_reports,
                )
            } else {
                &&& after == before
                &&& result matches Some(Err(got)) && got == Error::Dave(
                    DaveError::Decrypt(error),
                )
                &&& new_reports == (if telemetry {
                    told.with_dropped(
                        pending_event(
                            media,
                            shown_total(before.waiting_media()),
                            DavePendingMediaReason::StableDecryptFailure,
                            now,
                        ),
                    )
                } else {
                    told
                })
            }
        },
    }
}

/// Whether taking media that is tried again turned `before` into `after`. What has waited
/// too long is dropped.
pub open spec fn retry_taken<Raw: FrameRaw>(
    before: ReceiveState<Raw>,
    after: ReceiveState<Raw>,
    retry: DavePendingMediaRetry,
    now: Instant,
    telemetry: bool,
    old_reports: ReportsView,
    new_reports: ReportsView,
    retried: RetriedMedia<Raw>,
) -> bool {
    let waited = before.waiting_media();
    let waits = after.waiting_media();
    &&& sources_kept(before, after)
    &&& match waited.retried(retry) {
        None => {
            &&& retried is Nothing
            &&& waits.same(waited)
            &&& new_reports == old_reports
        },
        Some(bucket) => {
            let media = PendingMediaFrame {
                was_pending: true,
                ..waited.bucket(bucket)[0].1
            };
            let ttl = before.limits().dave_pending_media_ttl;
            &&& waits.changed(waited, bucket, waited.bucket(bucket).drop_first())
            &&& if now.elapsed_since(media.enqueued_at).nanos >= ttl.nanos {
                &&& retried is Expired
                &&& new_reports == (if telemetry {
                    old_reports.with_dropped(
                        pending_event(
                            media,
                            shown_total(waits),
                            DavePendingMediaReason::Expired,
                            now,
                        ),
                    )
                } else {
                    old_reports
                })
            } else {
                &&& retried == RetriedMedia::Media(media)
                &&& new_reports == old_reports
            }
        },
    }
}

/// Whether what cannot be decrypted now may be later.
pub open spec fn may_change(
    dave: DaveView,
    transition_ready: Option<u16>,
    session_ready: bool,
) -> bool {
    !session_ready || (!(dave.transition_id == Some(0u16) && transition_ready == Some(0u16))
        && !dave.settled())
}

pub fn decrypt_state_can_still_change(
    dave: &DaveInternalState,
    transition_ready: Option<u16>,
    session_ready: bool,
) -> (answer: bool)
    ensures
        answer == may_change(dave@, transition_ready, session_ready),
{
    !session_ready || (!dave.transition_zero_media_ready(transition_ready)
        && !dave.gateway_media_ready())
}

/// The frame that is given out. Whatever its codec, it is called audio.
pub open spec fn is_frame<Raw>(
    frame: ReceivedFrame<Raw>,
    media: PendingMediaFrame<Raw>,
    bytes: Vec<u8>,
) -> bool {
    frame == (ReceivedFrame {
        raw: media.raw,
        rtp: media.rtp,
        user_id: media.user_id,
        media_type: MediaType::Audio,
        codec: media.codec,
        frame: bytes,
    })
}

impl<Raw> ReceivePipeline<Raw> where Raw: FrameRaw {
    pub fn new(tuning: ConnectionTuning) -> (pipeline: Self)
        ensures
            pipeline.state.well_formed(),
            pipeline.state.limits() == tuning,
            pipeline.state.sources().dom() == Set::<u32>::empty(),
            pipeline.state.waiting_media().total() == 0,
            pipeline.state.waiting_media().patience() == tuning.dave_pending_media_ttl,
            pipeline.ready_frames@.len() == 0,
            pipeline.ready_frames.room() == tuning.ready_frame_buffer_max,
            forall|kind: LowLevelReceiveKind| #[trigger]
                pipeline.packet_receives.waiting(kind).len() == 0,
            pipeline.next_receive_id == 1,
    {
        ReceivePipeline {
            state: ReceiveState::new(tuning),
            ready_frames: ReadyFrameQueue::new(tuning.ready_frame_buffer_max),
            packet_receives: UdpPacketReceives::new(),
            next_receive_id: 1,
        }
    }

    /// The id of the next caller. No id is zero.
    pub fn next_receive_id(&mut self) -> (id: u64)
        ensures
            id == old(self).next_receive_id,
            *final(self) == (ReceivePipeline {
                next_receive_id: if id == u64::MAX {
                    1
                } else {
                    (id + 1) as u64
                },
                ..*old(self)
            }),
    {
        let id: u64 = self.next_receive_id;
        self.next_receive_id = if id == u64::MAX {
            1
        } else {
            id + 1
        };
        id
    }

    /// A frame that needs no decryption.
    pub fn plain_frame(media: PendingMediaFrame<Raw>) -> (frame: ReceivedFrame<Raw>)
        ensures
            is_frame(frame, media, media.encrypted_frame),
    {
        ReceivedFrame {
            raw: media.raw,
            rtp: media.rtp,
            user_id: media.user_id,
            media_type: MediaType::Audio,
            codec: media.codec,
            frame: media.encrypted_frame,
        }
    }

    /// Lets media through to decryption, with the user who is known for its source, or
    /// keeps it back until what it waits for has come.
    pub fn admit_dave_media(
        &mut self,
        media: PendingMediaFrame<Raw>,
        state: &ConnectionInternalState,
        transition_ready: Option<u16>,
        session_ready: bool,
        now: Instant,
        telemetry: bool,
        reports: &mut ReceiveReports,
    ) -> (admitted: Option<PendingMediaFrame<Raw>>)
        ensures
            final(self).ready_frames == old(self).ready_frames,
            final(self).packet_receives == old(self).packet_receives,
            final(self).next_receive_id == old(self).next_receive_id,
            media_admitted(
                old(self).state,
                final(self).state,
                media,
                state@,
                transition_ready,
                session_ready,
                now,
                telemetry,
                old(reports)@,
                final(reports)@,
                admitted,
            ),
    {
        let mut media = media;
        media.user_id = state.user_of(media.rtp.ssrc);
        if media.user_id.is_none() {
            self.enqueue_dave_media(
                media,
                DavePendingMediaReason::MissingUser,
                now,
                telemetry,
                reports,
            );
            return None;
        }
        if !session_ready {
            self.enqueue_dave_media(
                media,
                DavePendingMediaReason::SessionNotReady,
                now,
                telemetry,
                reports,
            );
            return None;
        }
        if !state.dave.gateway_media_ready() && !state.dave.transition_zero_media_ready(
            transition_ready,
        ) {
            self.enqueue_dave_media(
                media,
                DavePendingMediaReason::GatewayPending,
                now,
                telemetry,
                reports,
            );
            return None;
        }
        Some(media)
    }

    fn enqueue_dave_media(
        &mut self,
        media: PendingMediaFrame<Raw>,
        reason: DavePendingMediaReason,
        now: Instant,
        telemetry: bool,
        reports: &mut ReceiveReports,
    )
        requires
            DavePendingMediaBucket::of_reason(reason) is Some,
        ensures
            final(self).ready_frames == old(self).ready_frames,
            final(self).packet_receives == old(self).packet_receives,
            final(self).next_receive_id == old(self).next_receive_id,
            media_waits(
                old(self).state,
                final(self).state,
                media,
                reason,
                now,
                telemetry,
                old(reports)@,
                final(reports)@,
            ),
    {
        let mut media = media;
        media.reason = reason;
        let was_pending = media.was_pending;
        let mut event = media.event(0, reason, now);
        let waiting = self.state.pending_dave_media_mut();
        let pending_packets = waiting.push(media);
        if telemetry && !was_pending {
            event.pending_packets = pending_packets;
            reports.pending_enqueued.push(event);
        }
    }

    /// What comes of media that the session has decrypted, or could not. Media that may be
    /// decrypted later is kept, unless it has waited too long.
    pub fn finish_dave_media(
        &mut self,
        media: PendingMediaFrame<Raw>,
        decrypted: Result<Vec<u8>, DaveDecryptError>,
        state_can_still_change: bool,
        now: Instant,
        telemetry: bool,
        reports: &mut ReceiveReports,
    ) -> (result: Option<Result<ReceivedFrame<Raw>, Error>>)
        ensures
            final(self).ready_frames == old(self).ready_frames,
            final(self).packet_receives == old(self).packet_receives,
            final(self).next_receive_id == old(self).next_receive_id,
            media_finished(
                old(self).state,
                final(self).state,
                media,
                decrypted,
                state_can_still_change,
                now,
                telemetry,
                old(reports)@,
                final(reports)@,
                result,
            ),
    {
        let error = match decrypted {
            Ok(frame) => {
                if telemetry && media.was_pending {
                    let pending = self.state.pending_dave_media().len();
                    reports.pending_drained.push(media.event(pending, media.reason, now));
                }
                return Some(
                    Ok(
                        ReceivedFrame {
                            raw: media.raw,
                            rtp: media.rtp,
                            user_id: media.user_id,
                            media_type: MediaType::Audio,
                            codec: media.codec,
                            frame,
                        },
                    ),
                );
            },
            Err(error) => error,
        };
        let kind = error.receive_decode_kind();
        let reason = if error.is_no_valid_cryptor() {
            DavePendingMediaReason::NoValidCryptorPending
        } else {
            DavePendingMediaReason::DecryptStatePending
        };
        let error = Error::Dave(DaveError::Decrypt(error));
        if telemetry {
            reports.push_decode_error(
                receive_decode_error(
                    ReceiveDecodeStage::DaveDecrypt,
                    kind,
                    ReceiveDecodeContext {
                        ssrc: Some(media.rtp.ssrc),
                        user_id: media.user_id,
                        seq: Some(media.rtp.seq),
                    },
                    &error,
                ),
            );
        }
        let ttl = self.state.tuning().dave_pending_media_ttl;
        if now.since(media.enqueued_at).nanos < ttl.nanos && kind.should_retry_dave_decrypt(
            state_can_still_change,
        ) {
            self.enqueue_dave_media(media, reason, now, telemetry, reports);
            return None;
        }
        if telemetry {
            let pending = self.state.pending_dave_media().len();
            reports.pending_dropped.push(
                media.event(pending, DavePendingMediaReason::StableDecryptFailure, now),
            );
        }
        Some(Err(error))
    }

    /// Takes media that is tried again. What has waited too long is dropped.
    pub fn take_retry(
        &mut self,
        retry: DavePendingMediaRetry,
        now: Instant,
        telemetry: bool,
        reports: &mut ReceiveReports,
    ) -> (retried: RetriedMedia<Raw>)
        ensures
            final(self).ready_frames == old(self).ready_frames,
            final(self).packet_receives == old(self).packet_receives,
            final(self).next_receive_id == old(self).next_receive_id,
            retry_taken(
                old(self).state,
                final(self).state,
                retry,
                now,
                telemetry,
                old(reports)@,
                final(reports)@,
                retried,
            ),
    {
        let ttl = self.state.tuning().dave_pending_media_ttl;
        let waiting = self.state.pending_dave_media_mut();
        let popped = waiting.pop_retry(retry);
        let mut media = match popped {
            Some(media) => media,
            None => {
                return RetriedMedia::Nothing;
            },
        };
        media.was_pending = true;
        if now.since(media.enqueued_at).nanos >= ttl.nanos {
            if telemetry {
                let pending = self.state.pending_dave_media().len();
                reports.pending_dropped.push(
                    media.event(pending, DavePendingMediaReason::Expired, now),
                );
            }
            return RetriedMedia::Expired;
        }
        RetriedMedia::Media(media)
    }

    /// Drops the media whose time is up, and no other.
    pub fn expire_pending_dave_media(
        &mut self,
        now: Instant,
        telemetry: bool,
        reports: &mut ReceiveReports,
    )
        ensures
            final(self).ready_frames == old(self).ready_frames,
            final(self).packet_receives == old(self).packet_receives,
            final(self).next_receive_id == old(self).next_receive_id,
            sources_kept(old(self).state, final(self).state),
            final(self).state.waiting_media().patience() == old(self).state.waiting_media().patience(),
            forall|bucket: DavePendingMediaBucket| #[trigger]
                due_dropped(
                    old(self).state.waiting_media().bucket(bucket),
                    final(self).state.waiting_media().bucket(bucket),
                    now,
                ),
            final(self).state.waiting_media().first_deadline() matches Some(deadline)
                ==> deadline.nanos > now.nanos,
            final(reports)@ == (ReportsView {
                pending_dropped: final(reports)@.pending_dropped,
                ..old(reports)@
            }),
            !telemetry ==> final(reports)@ == old(reports)@,
            exists|told: Seq<DavePendingMediaEvent>|
                {
                    &&& #[trigger] expired(
                        old(self).state.waiting_media(),
                        final(self).state.waiting_media(),
                        now,
                        told,
                    )
                    &&& telemetry ==> final(reports)@.pending_dropped
                        == old(reports)@.pending_dropped + told
                },
    {
        let ghost before = self.state.waiting_media();
        let ghost mut states = seq![before];
        proof {
            assert forall|bucket: DavePendingMediaBucket| #[trigger]
                due_dropped(before.bucket(bucket), before.bucket(bucket), now) by {
                assert(before.bucket(bucket).skip(0) =~= before.bucket(bucket));
            }
        }
        loop
            invariant_except_break
                self.state.waiting_media() == states.last(),
            invariant
                before == old(self).state.waiting_media(),
                self.ready_frames == old(self).ready_frames,
                self.packet_receives == old(self).packet_receives,
                self.next_receive_id == old(self).next_receive_id,
                sources_kept(old(self).state, self.state),
                self.state.waiting_media().patience() == before.patience(),
                forall|bucket: DavePendingMediaBucket| #[trigger]
                    due_dropped(
                        before.bucket(bucket),
                        self.state.waiting_media().bucket(bucket),
                        now,
                    ),
                reports@ == (ReportsView {
                    pending_dropped: reports@.pending_dropped,
                    ..old(reports)@
                }),
                !telemetry ==> reports@ == old(reports)@,
                expiry_run(states, now),
                states[0] == before,
                self.state.waiting_media().same(states.last()),
                telemetry ==> reports@.pending_dropped == old(reports)@.pending_dropped
                    + expiry_reports(states, now),
            ensures
                self.state.waiting_media().first_deadline() matches Some(deadline)
                    ==> deadline.nanos > now.nanos,
            decreases self.state.waiting_media().total(),
        {
            let ghost middle = self.state.waiting_media();
            let waiting = self.state.pending_dave_media_mut();
            let popped = waiting.pop_expired(now);
            let media = match popped {
                Some(media) => media,
                None => {
                    proof {
                        lemma_same_deadline(self.state.waiting_media(), middle);
                    }
                    break;
                },
            };
            proof {
                let after = self.state.waiting_media();
                lemma_one_dropped(before, middle, after, now);
                let longer = states.push(after);
                assert(expiry_step(middle, after, now));
                assert(expiry_reports(longer, now) =~= expiry_reports(states, now).push(
                    pending_event(media, shown_total(after), DavePendingMediaReason::Expired, now),
                ));
                states = longer;
            }
            if telemetry {
                let pending = self.state.pending_dave_media().len();
                reports.pending_dropped.push(
                    media.event(pending, DavePendingMediaReason::Expired, now),
                );
            }
        }
        assert(expired(
            old(self).state.waiting_media(),
            self.state.waiting_media(),
            now,
            expiry_reports(states, now),
        ));
    }
}

/// The reports with one more of an error, where they are wanted.
pub open spec fn error_reported(
    reports: ReportsView,
    telemetry: bool,
    stage: ReceiveDecodeStage,
    kind: ReceiveDecodeErrorKind,
    context: ReceiveDecodeContext,
    error: Error,
) -> ReportsView {
    if telemetry {
        reports.with_decode_error(decode_report(stage, kind, context, error))
    } else {
        reports
    }
}

/// The user who is known for a source.
pub open spec fn known_user(state: StateView, ssrc: u32) -> Option<u64> {
    if state.users.dom().contains(ssrc) {
        Some(state.users[ssrc])
    } else {
        None
    }
}

/// Which packet a report is of.
pub open spec fn packet_context(state: StateView, rtp: RtpHeader) -> ReceiveDecodeContext {
    ReceiveDecodeContext {
        ssrc: Some(rtp.ssrc),
        user_id: known_user(state, rtp.ssrc),
        seq: Some(rtp.seq),
    }
}

/// Whether a packet is what a datagram holds.
pub open spec fn is_packet<Raw: FrameRaw>(
    packet: PendingMediaPacket<Raw>,
    bytes: Seq<u8>,
    info: RawUdpPacketInfo,
    state: StateView,
    rtp: RtpHeader,
    codec: Codec,
    payload: Seq<u8>,
) -> bool {
    &&& Raw::captured(packet.raw, bytes, info)
    &&& packet.rtp == rtp
    &&& packet.user_id == known_user(state, rtp.ssrc)
    &&& packet.codec == codec
    &&& packet.encrypted_payload@ == payload
    &&& packet.dave == state.dave.transforms_received()
}

/// What comes of a datagram that is no RTCP packet, where its header is read and its codec
/// is known: it is opened and goes to its source.
#[verifier::opaque]
pub open spec fn packet_opened<Raw: FrameRaw>(
    before: ReceiveState<Raw>,
    after: ReceiveState<Raw>,
    crypto: TransportCrypto,
    state: StateView,
    bytes: Seq<u8>,
    info: RawUdpPacketInfo,
    rtp: RtpHeader,
    codec: Codec,
    now: Instant,
    telemetry: bool,
    old_reports: ReportsView,
    new_reports: ReportsView,
    media: Result<Option<PendingMediaFrame<Raw>>, Error>,
) -> bool {
    match crypto.payload_of(bytes, rtp) {
        Err(error) => {
            &&& media == Err::<Option<PendingMediaFrame<Raw>>, Error>(error)
            &&& after == before
            &&& new_reports == error_reported(
                old_reports,
                telemetry,
                ReceiveDecodeStage::Transport,
                ReceiveDecodeErrorKind::TransportDecryptFailed,
                packet_context(state, rtp),
                error,
            )
        },
        Ok(payload) => {
            &&& new_reports == (ReportsView { rtp: new_reports.rtp, ..old_reports })
            &&& exists|packet: PendingMediaPacket<Raw>|
                {
                    &&& is_packet(packet, bytes, info, state, rtp, codec, payload)
                    &&& #[trigger] packet_taken(
                        before,
                        after,
                        packet,
                        now,
                        telemetry,
                        old_reports.rtp,
                        new_reports.rtp,
                        media,
                    )
                }
        },
    }
}

/// What comes of a datagram whose codec is found, or refused.
pub open spec fn codec_settled<Raw: FrameRaw>(
    before: ReceiveState<Raw>,
    after: ReceiveState<Raw>,
    crypto: TransportCrypto,
    state: StateView,
    bytes: Seq<u8>,
    info: RawUdpPacketInfo,
    rtp: RtpHeader,
    codec: Result<Codec, UnsupportedCodecError>,
    now: Instant,
    telemetry: bool,
    old_reports: ReportsView,
    new_reports: ReportsView,
    media: Result<Option<PendingMediaFrame<Raw>>, Error>,
) -> bool {
    match codec {
        Err(error) => {
            &&& media == Err::<Option<PendingMediaFrame<Raw>>, Error>(
                Error::UnsupportedCodec(error),
            )
            &&& after == before
            &&& new_reports == error_reported(
                old_reports,
                telemetry,
                ReceiveDecodeStage::Codec,
                ReceiveDecodeErrorKind::UnsupportedCodec,
                packet_context(state, rtp),
                Error::UnsupportedCodec(error),
            )
        },
        Ok(codec) => packet_opened(
            before,
            after,
            crypto,
            state,
            bytes,
            info,
            rtp,
            codec,
            now,
            telemetry,
            old_reports,
            new_reports,
            media,
        ),
    }
}

/// What comes of a datagram that is no RTCP packet.
pub open spec fn datagram_taken<Raw: FrameRaw>(
    before: ReceiveState<Raw>,
    after: ReceiveState<Raw>,
    crypto: TransportCrypto,
    state: StateView,
    bytes: Seq<u8>,
    info: RawUdpPacketInfo,
    now: Instant,
    telemetry: bool,
    old_reports: ReportsView,
    new_reports: ReportsView,
    media: Result<Option<PendingMediaFrame<Raw>>, Error>,
) -> bool {
    match RtpHeader::read(bytes) {
        Err(error) => {
            &&& media == Err::<Option<PendingMediaFrame<Raw>>, Error>(Error::Rtp(error))
            &&& after == before
            &&& new_reports == error_reported(
                old_reports,
                telemetry,
                ReceiveDecodeStage::Rtp,
                ReceiveDecodeErrorKind::MalformedRtp,
                (ReceiveDecodeContext { ssrc: info.ssrc, user_id: None, seq: info.seq }),
                Error::Rtp(error),
            )
        },
        Ok(rtp) => match state.codecs {
            None => {
                &&& media == Err::<Option<PendingMediaFrame<Raw>>, Error>(
                    Error::Protocol(ProtocolError::MissingSessionDescription),
                )
                &&& after == before
                &&& new_reports == old_reports
            },
            Some(codecs) => exists|codec: Result<Codec, UnsupportedCodecError>|
                {
                    &&& detects(codecs, rtp.payload_type, codec)
                    &&& #[trigger] codec_settled(
                        before,
                        after,
                        crypto,
                        state,
                        bytes,
                        info,
                        rtp,
                        codec,
                        now,
                        telemetry,
                        old_reports,
                        new_reports,
                        media,
                    )
                },
        },
    }
}

impl<Raw> ReceivePipeline<Raw> where Raw: FrameRaw {
    fn report_error(
        telemetry: bool,
        reports: &mut ReceiveReports,
        stage: ReceiveDecodeStage,
        kind: ReceiveDecodeErrorKind,
        context: ReceiveDecodeContext,
        error: &Error,
    )
        ensures
            final(reports)@ == error_reported(
                old(reports)@,
                telemetry,
                stage,
                kind,
                context,
                *error,
            ),
    {
        if telemetry {
            reports.push_decode_error(receive_decode_error(stage, kind, context, error));
        }
    }

    /// Reads a datagram that is no RTCP packet, opens it, and gives its payload to its
    /// source. A frame comes back where this completed one.
    pub fn decode_received_voice_packet(
        &mut self,
        bytes: &[u8],
        info: RawUdpPacketInfo,
        state: &ConnectionInternalState,
        crypto: &TransportCrypto,
        now: Instant,
        telemetry: bool,
        reports: &mut ReceiveReports,
    ) -> (media: Result<Option<PendingMediaFrame<Raw>>, Error>)
        requires
            old(self).state.well_formed(),
            bytes@.len() <= XCHACHA20_MAX_TEXT,
            bytes@.len() + 20 <= usize::MAX,
        ensures
            final(self).state.well_formed(),
            final(self).ready_frames == old(self).ready_frames,
            final(self).packet_receives == old(self).packet_receives,
            final(self).next_receive_id == old(self).next_receive_id,
            datagram_taken(
                old(self).state,
                final(self).state,
                *crypto,
                state@,
                bytes@,
                info,
                now,
                telemetry,
                old(reports)@,
                final(reports)@,
                media,
            ),
    {
        let rtp = match RtpHeader::parse(bytes) {
            Ok(rtp) => rtp,
            Err(error) => {
                let error = Error::Rtp(error);
                Self::report_error(
                    telemetry,
                    reports,
                    ReceiveDecodeStage::Rtp,
                    ReceiveDecodeErrorKind::MalformedRtp,
                    ReceiveDecodeContext { ssrc: info.ssrc, user_id: None, seq: info.seq },
                    &error,
                );
                return Err(error);
            },
        };
        let codecs = match &state.rtp_codecs {
            Some(codecs) => codecs,
            None => {
                return Err(Error::Protocol(ProtocolError::MissingSessionDescription));
            },
        };
        let detected = codecs.detect(rtp.payload_type);
        let ghost verdict = detected;
        let media = self.settle_codec(
            bytes,
            info,
            state,
            crypto,
            rtp,
            detected,
            now,
            telemetry,
            reports,
        );
        assert(codec_settled(
            old(self).state,
            self.state,
            *crypto,
            state@,
            bytes@,
            info,
            rtp,
            verdict,
            now,
            telemetry,
            old(reports)@,
            reports@,
            media,
        ));
        media
    }

    fn settle_codec(
        &mut self,
        bytes: &[u8],
        info: RawUdpPacketInfo,
        state: &ConnectionInternalState,
        crypto: &TransportCrypto,
        rtp: RtpHeader,
        detected: Result<Codec, UnsupportedCodecError>,
        now: Instant,
        telemetry: bool,
        reports: &mut ReceiveReports,
    ) -> (media: Result<Option<PendingMediaFrame<Raw>>, Error>)
        requires
            old(self).state.well_formed(),
            bytes@.len() <= XCHACHA20_MAX_TEXT,
            bytes@.len() + 20 <= usize::MAX,
            rtp.consistent(),
            rtp.header_len <= bytes@.len(),
        ensures
            final(self).state.well_formed(),
            final(self).ready_frames == old(self).ready_frames,
            final(self).packet_receives == old(self).packet_receives,
            final(self).next_receive_id == old(self).next_receive_id,
            codec_settled(
                old(self).state,
                final(self).state,
                *crypto,
                state@,
                bytes@,
                info,
                rtp,
                detected,
                now,
                telemetry,
                old(reports)@,
                final(reports)@,
                media,
            ),
    {
        match detected {
            Ok(codec) => self.open_packet(
                bytes,
                info,
                state,
                crypto,
                rtp,
                codec,
                now,
                telemetry,
                reports,
            ),
            Err(error) => {
                let error = Error::UnsupportedCodec(error);
                let user_id = state.user_of(rtp.ssrc);
                Self::report_error(
                    telemetry,
                    reports,
                    ReceiveDecodeStage::Codec,
                    ReceiveDecodeErrorKind::UnsupportedCodec,
                    ReceiveDecodeContext { ssrc: Some(rtp.ssrc), user_id, seq: Some(rtp.seq) },
                    &error,
                );
                Err(error)
            },
        }
    }

    fn open_packet(
        &mut self,
        bytes: &[u8],
        info: RawUdpPacketInfo,
        state: &ConnectionInternalState,
        crypto: &TransportCrypto,
        rtp: RtpHeader,
        codec: Codec,
        now: Instant,
        telemetry: bool,
        reports: &mut ReceiveReports,
    ) -> (media: Result<Option<PendingMediaFrame<Raw>>, Error>)
        requires
            old(self).state.well_formed(),
            bytes@.len() <= XCHACHA20_MAX_TEXT,
            bytes@.len() + 20 <= usize::MAX,
            rtp.consistent(),
            rtp.header_len <= bytes@.len(),
        ensures
            final(self).state.well_formed(),
            final(self).ready_frames == old(self).ready_frames,
            final(self).packet_receives == old(self).packet_receives,
            final(self).next_receive_id == old(self).next_receive_id,
            packet_opened(
                old(self).state,
                final(self).state,
                *crypto,
                state@,
                bytes@,
                info,
                rtp,
                codec,
                now,
                telemetry,
                old(reports)@,
                final(reports)@,
                media,
            ),
    {
        proof {
            reveal(packet_opened);
        }
        let user_id = state.user_of(rtp.ssrc);
        let payload = match crypto.open_payload(bytes, &rtp) {
            Ok(payload) => payload,
            Err(error) => {
                Self::report_error(
                    telemetry,
                    reports,
                    ReceiveDecodeStage::Transport,
                    ReceiveDecodeErrorKind::TransportDecryptFailed,
                    ReceiveDecodeContext { ssrc: Some(rtp.ssrc), user_id, seq: Some(rtp.seq) },
                    &error,
                );
                return Err(error);
            },
        };
        let packet = PendingMediaPacket {
            raw: Raw::capture_packet(bytes, info),
            rtp,
            user_id,
            codec,
            encrypted_payload: payload,
            dave: state.dave.receive_transform_active(),
        };
        let ghost taken = packet;
        let media = self.state.push_media_packet(packet, now, telemetry, &mut reports.rtp);
        assert(is_packet(taken, bytes@, info, state@, rtp, codec, taken.encrypted_payload@));
        assert(packet_taken(
            old(self).state,
            self.state,
            taken,
            now,
            telemetry,
            old(reports)@.rtp,
            reports@.rtp,
            media,
        ));
        media
    }
}

/// Whether items that are due were dropped from the front, and nothing else.
pub open spec fn due_dropped<T>(
    before: Seq<(Instant, T)>,
    after: Seq<(Instant, T)>,
    now: Instant,
) -> bool {
    exists|count: int|
        {
            &&& 0 <= count <= before.len()
            &&& after == #[trigger] before.skip(count)
            &&& forall|i: int| 0 <= i < count ==> (#[trigger] before[i]).0.nanos <= now.nanos
        }
}

/// Whether dropping the media that is due first turned `before` into `after`.
pub open spec fn expiry_step<Raw>(
    before: PendingDaveMediaQueues<Raw>,
    after: PendingDaveMediaQueues<Raw>,
    now: Instant,
) -> bool {
    let kind = before.first_kind()->0;
    &&& before.first_deadline() matches Some(deadline) && deadline.nanos <= now.nanos
    &&& before.bucket(kind).len() > 0
    &&& after.changed(before, kind, before.bucket(kind).drop_first())
}

/// Whether each of these comes of the one before it by dropping the media that is due first.
pub open spec fn expiry_run<Raw>(
    states: Seq<PendingDaveMediaQueues<Raw>>,
    now: Instant,
) -> bool {
    &&& states.len() > 0
    &&& forall|i: int, j: int|
        #![trigger states[i], states[j]]
        0 <= i && j == i + 1 && j < states.len() ==> expiry_step(states[i], states[j], now)
}

/// The reports of a run of drops, in their order: each of the media that was first, and of
/// what still waits without it.
pub open spec fn expiry_reports<Raw: FrameRaw>(
    states: Seq<PendingDaveMediaQueues<Raw>>,
    now: Instant,
) -> Seq<DavePendingMediaEvent> {
    Seq::new(
        (states.len() - 1) as nat,
        |i: int|
            pending_event(
                states[i].bucket(states[i].first_kind()->0)[0].1,
                shown_total(states[i + 1]),
                DavePendingMediaReason::Expired,
                now,
            ),
    )
}

/// Whether dropping the media that was due turned `before` into `after`, one after the other
/// in the order of their deadlines, and these are the reports that came of it.
pub open spec fn expired<Raw: FrameRaw>(
    before: PendingDaveMediaQueues<Raw>,
    after: PendingDaveMediaQueues<Raw>,
    now: Instant,
    told: Seq<DavePendingMediaEvent>,
) -> bool {
    exists|states: Seq<PendingDaveMediaQueues<Raw>>|
        {
            &&& #[trigger] expiry_run(states, now)
            &&& states[0] == before
            &&& after.same(states.last())
            &&& told == expiry_reports(states, now)
        }
}

proof fn lemma_same_deadline<Raw>(
    after: PendingDaveMediaQueues<Raw>,
    before: PendingDaveMediaQueues<Raw>,
)
    requires
        after.same(before),
    ensures
        after.first_deadline() == before.first_deadline(),
        after.total() == before.total(),
{
    assert(after.bucket(DavePendingMediaBucket::MissingUser) == before.bucket(
        DavePendingMediaBucket::MissingUser,
    ));
    assert(after.bucket(DavePendingMediaBucket::SessionNotReady) == before.bucket(
        DavePendingMediaBucket::SessionNotReady,
    ));
    assert(after.bucket(DavePendingMediaBucket::GatewayPending) == before.bucket(
        DavePendingMediaBucket::GatewayPending,
    ));
    assert(after.bucket(DavePendingMediaBucket::DecryptStatePending) == before.bucket(
        DavePendingMediaBucket::DecryptStatePending,
    ));
}

proof fn lemma_one_dropped<Raw>(
    first: PendingDaveMediaQueues<Raw>,
    before: PendingDaveMediaQueues<Raw>,
    after: PendingDaveMediaQueues<Raw>,
    now: Instant,
)
    requires
        before.first_deadline() matches Some(deadline) && deadline.nanos <= now.nanos,
        before.bucket(before.first_kind()->0).len() > 0,
        after.changed(
            before,
            before.first_kind()->0,
            before.bucket(before.first_kind()->0).drop_first(),
        ),
        forall|bucket: DavePendingMediaBucket| #[trigger]
            due_dropped(first.bucket(bucket), before.bucket(bucket), now),
    ensures
        forall|bucket: DavePendingMediaBucket| #[trigger]
            due_dropped(first.bucket(bucket), after.bucket(bucket), now),
        after.total() + 1 == before.total(),
{
    let kind = before.first_kind()->0;
    let items = before.bucket(kind);
    assert(items[0].0.nanos <= now.nanos);
    assert forall|bucket: DavePendingMediaBucket| #[trigger]
        due_dropped(first.bucket(bucket), after.bucket(bucket), now) by {
        assert(due_dropped(first.bucket(bucket), before.bucket(bucket), now));
        let all = first.bucket(bucket);
        let count = choose|count: int|
            {
                &&& 0 <= count <= all.len()
                &&& before.bucket(bucket) == #[trigger] all.skip(count)
                &&& forall|i: int| 0 <= i < count ==> (#[trigger] all[i]).0.nanos <= now.nanos
            };
        if bucket == kind {
            assert(all.skip(count).drop_first() =~= all.skip(count + 1));
            assert(all[count] == items[0]);
        } else {
            assert(after.bucket(bucket) == before.bucket(bucket));
        }
    }
    assert(forall|other: DavePendingMediaBucket|
        other != kind ==> #[trigger] after.bucket(other) == before.bucket(other));
    lemma_totals(before, after, kind);
}

proof fn lemma_totals<Raw>(
    before: PendingDaveMediaQueues<Raw>,
    after: PendingDaveMediaQueues<Raw>,
    kind: DavePendingMediaBucket,
)
    requires
        before.bucket(kind).len() == after.bucket(kind).len() + 1,
        forall|other: DavePendingMediaBucket|
            other != kind ==> #[trigger] after.bucket(other) == before.bucket(other),
    ensures
        after.total() + 1 == before.total(),
{
    assert(kind != DavePendingMediaBucket::MissingUser ==> after.bucket(
        DavePendingMediaBucket::MissingUser,
    ) == before.bucket(DavePendingMediaBucket::MissingUser));
    assert(kind != DavePendingMediaBucket::SessionNotReady ==> after.bucket(
        DavePendingMediaBucket::SessionNotReady,
    ) == before.bucket(DavePendingMediaBucket::SessionNotReady));
    assert(kind != DavePendingMediaBucket::GatewayPending ==> after.bucket(
        DavePendingMediaBucket::GatewayPending,
    ) == before.bucket(DavePendingMediaBucket::GatewayPending));
    assert(kind != DavePendingMediaBucket::DecryptStatePending ==> after.bucket(
        DavePendingMediaBucket::DecryptStatePending,
    ) == before.bucket(DavePendingMediaBucket::DecryptStatePending));
}

} // verus!
