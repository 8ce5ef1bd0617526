//! What holds of a connection: which media waits and for what, who gets what is ready, and
//! what goes out.

use super::connect::{
    just_up, setup_failure, setup_step, stage_secs, AwaitingSession, SetupMessage, SetupStep,
};
use super::driver::{
    command_done, media_status, message_handled, next_receive, numbered, CommandOutcome,
    ConnectionCommand, ConnectionDriver, DaveReadiness, GatewayMessage,
};
use super::frames::frame_for;
use super::intake::{media_sorted, MediaTurn};
use super::pipeline::{
    datagram_given, datagram_taken, may_change, media_finished, media_gate, media_waits,
    retry_taken, still_waiting, ReceivePipeline, RetriedMedia, UdpPacketReceives,
};
use super::receive::{kept_frames, LowLevelReceiveKind, ReportsView};
use super::send::{agreed_video, NegotiatedVideoMedia, SendPipeline};
use super::turns::{frame_queued, ServeStep};
use crate::codec::Codec;
use crate::errors::{DaveDecryptError, Error};
use crate::gateway::event::GatewayEventEffects;
use crate::gateway::opcode::Opcode;
use crate::media::{
    FrameRaw, RawUdpPacket, RawUdpPacketInfo, ReceivedFrame, RtpHeader, TransportCrypto,
};
use crate::observer::{ConnectStage, DavePendingMediaReason, ReceiveDecodeErrorKind};
use crate::queue::{due_by, without};
use crate::state::connection::StateView;
use crate::state::receive::law_other_sources_keep_waiting;
use crate::state::sources::law_the_line_closes_up;
use crate::state::{
    DavePendingMediaBucket, DavePendingMediaRetry, PendingMediaFrame, ReceiveState,
    SessionDescription,
};
use crate::time::Instant;
use vstd::prelude::*;

verus! {

/// Media is let through to the session exactly where its user is known, the session is ready,
/// and the gateway has nothing under way, or only the very first transition, which is ready.
/// What keeps it is told in that order: the user, the session, the gateway.
pub proof fn law_media_waits_for_what_is_missing(
    state: StateView,
    ssrc: u32,
    transition_ready: Option<u16>,
    session_ready: bool,
)
    ensures
        ({
            let gate = media_gate(state, ssrc, transition_ready, session_ready);
            let known = state.users.dom().contains(ssrc);
            let quiet = state.dave.transition_id is None && state.dave.pending.commit is None
                && state.dave.pending.welcome is None && state.dave.proposals.len() == 0;
            let first = state.dave.transition_id == Some(0u16) && transition_ready == Some(0u16);
            &&& gate is None == (known && session_ready && (quiet || first))
            &&& gate == Some(DavePendingMediaReason::MissingUser) <==> !known
            &&& gate == Some(DavePendingMediaReason::SessionNotReady) <==> known && !session_ready
            &&& known && gate is Some ==> may_change(state.dave, transition_ready, session_ready)
            &&& known && gate is None ==> !may_change(state.dave, transition_ready, session_ready)
        }),
{
}

/// Where encryption is needed, media can be sent exactly where the session can decrypt and
/// encrypt and the gateway has nothing under way; where it is not needed, always.
pub proof fn law_media_is_ready_when_all_is_settled(
    state: StateView,
    transition_ready: Option<u16>,
    session: DaveReadiness,
)
    ensures
        ({
            let status = media_status(state, transition_ready, session);
            let quiet = state.dave.transition_id is None && state.dave.pending.commit is None
                && state.dave.pending.welcome is None && state.dave.proposals.len() == 0;
            &&& status.media_ready == (!status.requires_dave || (session.session_ready
                && session.send_ready && quiet))
            &&& status.session_ready == session.session_ready
            &&& status.send_ready == session.send_ready
            &&& (state.dave.active_send matches Some(version) && version > 0)
                ==> status.requires_dave
        }),
{
}

/// Media that waits is dropped when the patience with it is over, counted from when it came;
/// what waited before stays, in its order. That it waits is reported once.
pub proof fn law_waiting_media_is_kept<Raw: FrameRaw>(
    before: ReceiveState<Raw>,
    after: ReceiveState<Raw>,
    media: PendingMediaFrame<Raw>,
    reason: DavePendingMediaReason,
    now: Instant,
    telemetry: bool,
    old_reports: ReportsView,
    new_reports: ReportsView,
    bucket: DavePendingMediaBucket,
    at: int,
)
    requires
        media_waits(before, after, media, reason, now, telemetry, old_reports, new_reports),
        DavePendingMediaBucket::of_reason(reason) == Some(bucket),
        at == due_by(
            before.waiting_media().bucket(bucket),
            media.enqueued_at.later(before.waiting_media().patience()),
        ),
        0 <= at <= before.waiting_media().bucket(bucket).len(),
    ensures
        ({
            let items = before.waiting_media().bucket(bucket);
            let held = after.waiting_media().bucket(bucket);
            &&& held.len() == items.len() + 1
            &&& held.remove(at) == items
            &&& held[at].0 == media.enqueued_at.later(before.waiting_media().patience())
            &&& held[at].1.rtp == media.rtp
            &&& held[at].1.user_id == media.user_id
            &&& held[at].1.encrypted_frame == media.encrypted_frame
            &&& held[at].1.enqueued_at == media.enqueued_at
            &&& held[at].1.reason == reason
            &&& forall|other: DavePendingMediaBucket|
                other != bucket ==> #[trigger] after.waiting_media().bucket(other)
                    == before.waiting_media().bucket(other)
            &&& after.sources() == before.sources()
            &&& !telemetry || media.was_pending ==> new_reports == old_reports
            &&& telemetry && !media.was_pending ==> new_reports.pending_enqueued.len()
                == old_reports.pending_enqueued.len() + 1
        }),
{
    let items = before.waiting_media().bucket(bucket);
    let held = after.waiting_media().bucket(bucket);
    assert(held.remove(at) =~= items);
}

/// Media that the session decrypted is a frame of its source and its user, with what was
/// decrypted; media that it could not decrypt waits exactly where that is curable, the
/// session's state may still change, and its time is not over; and in every other case it is
/// an error. Media is never given out and kept as well.
pub proof fn law_media_is_given_or_kept<Raw: FrameRaw>(
    before: ReceiveState<Raw>,
    after: ReceiveState<Raw>,
    media: PendingMediaFrame<Raw>,
    decrypted: Result<Vec<u8>, DaveDecryptError>,
    may_still_change: bool,
    now: Instant,
    telemetry: bool,
    old_reports: ReportsView,
    new_reports: ReportsView,
    result: Option<Result<ReceivedFrame<Raw>, Error>>,
)
    requires
        media_finished(
            before,
            after,
            media,
            decrypted,
            may_still_change,
            now,
            telemetry,
            old_reports,
            new_reports,
            result,
        ),
    ensures
        decrypted matches Ok(bytes) ==> (result matches Some(Ok(frame)) && frame.frame == bytes
            && frame.rtp == media.rtp && frame.user_id == media.user_id && frame.codec
            == media.codec),
        decrypted matches Err(error) ==> {
            let kind = error.decode_kind();
            let curable = kind == ReceiveDecodeErrorKind::DaveNoDecryptorForUser || kind
                == ReceiveDecodeErrorKind::DaveNoValidCryptor || kind
                == ReceiveDecodeErrorKind::DaveOtherDecryptError;
            let in_time = now.nanos < media.enqueued_at.nanos
                + before.limits().dave_pending_media_ttl.nanos;
            &&& result is None == (curable && may_still_change && in_time && (now.nanos
                >= media.enqueued_at.nanos || before.limits().dave_pending_media_ttl.nanos > 0))
            &&& result is Some ==> result->0 is Err
        },
        result is Some ==> after == before,
        !telemetry ==> new_reports == old_reports,
{
}

/// Media that is tried again is the first of its kind and waits no longer; it is dropped
/// exactly where it has waited as long as it may, and is marked as having waited otherwise.
pub proof fn law_retried_media_leaves_the_queue<Raw: FrameRaw>(
    before: ReceiveState<Raw>,
    after: ReceiveState<Raw>,
    retry: DavePendingMediaRetry,
    now: Instant,
    telemetry: bool,
    old_reports: ReportsView,
    new_reports: ReportsView,
    retried: RetriedMedia<Raw>,
)
    requires
        retry_taken(before, after, retry, now, telemetry, old_reports, new_reports, retried),
    ensures
        retried is Nothing ==> after.waiting_media().same(before.waiting_media()) && new_reports
            == old_reports,
        retried !is Nothing ==> {
            &&& before.waiting_media().retried(retry) matches Some(bucket)
            &&& retry.takes(bucket)
            &&& after.waiting_media().bucket(bucket).len() + 1
                == before.waiting_media().bucket(bucket).len()
            &&& retried matches RetriedMedia::Media(media) ==> {
                let first = before.waiting_media().bucket(bucket)[0].1;
                &&& media.was_pending
                &&& media.rtp == first.rtp
                &&& media.encrypted_frame == first.encrypted_frame
                &&& media.enqueued_at == first.enqueued_at
                &&& now.elapsed_since(media.enqueued_at).nanos
                    < before.limits().dave_pending_media_ttl.nanos
            }
            &&& retried is Expired ==> now.elapsed_since(
                before.waiting_media().bucket(bucket)[0].1.enqueued_at,
            ).nanos >= before.limits().dave_pending_media_ttl.nanos
        },
        after.sources() == before.sources(),
{
}

/// Media in the clear is a frame as it is; encrypted media is never given out as it came.
pub proof fn law_encrypted_media_is_not_given_out<Raw: FrameRaw>(
    before: ReceiveState<Raw>,
    after: ReceiveState<Raw>,
    media: PendingMediaFrame<Raw>,
    state: StateView,
    transition_ready: Option<u16>,
    session_ready: bool,
    now: Instant,
    telemetry: bool,
    old_reports: ReportsView,
    new_reports: ReportsView,
    turn: MediaTurn<Raw>,
)
    requires
        media_sorted(
            before,
            after,
            media,
            state,
            transition_ready,
            session_ready,
            now,
            telemetry,
            old_reports,
            new_reports,
            turn,
        ),
    ensures
        turn is Ready == !media.dave,
        turn matches MediaTurn::Ready(frame) ==> frame.frame == media.encrypted_frame && frame.rtp
            == media.rtp && frame.user_id == media.user_id,
        turn matches MediaTurn::Decrypt(admitted) ==> {
            &&& session_ready
            &&& state.users.dom().contains(media.rtp.ssrc)
            &&& admitted.user_id == Some(state.users[media.rtp.ssrc])
            &&& admitted.encrypted_frame == media.encrypted_frame
            &&& after == before
        },
{
}

/// A datagram that is no packet, or not of a codec that was agreed on, is an error and
/// changes nothing.
pub proof fn law_strange_datagrams_change_nothing<Raw: FrameRaw>(
    before: ReceiveState<Raw>,
    after: ReceiveState<Raw>,
    crypto: TransportCrypto,
    state: StateView,
    bytes: Seq<u8>,
    info: RawUdpPacketInfo,
    now: Instant,
    telemetry: bool,
    old_reports: ReportsView,
    new_reports: ReportsView,
    media: Result<Option<PendingMediaFrame<Raw>>, Error>,
)
    requires
        datagram_taken(
            before,
            after,
            crypto,
            state,
            bytes,
            info,
            now,
            telemetry,
            old_reports,
            new_reports,
            media,
        ),
    ensures
        RtpHeader::read(bytes) is Err ==> media is Err && after == before,
        state.codecs is None ==> media is Err && after == before,
        RtpHeader::read(bytes) matches Ok(rtp) ==> (state.codecs matches Some(codecs) ==> (!(
        exists|codec: Codec|
            codecs.contains(codec) && #[trigger] crate::codecs::payload_number(codec)
                == rtp.payload_type@) ==> media is Err && after == before)),
{
    if let Ok(rtp) = RtpHeader::read(bytes) {
        if let Some(codecs) = state.codecs {
            if !(exists|codec: Codec|
                codecs.contains(codec) && #[trigger] crate::codecs::payload_number(codec)
                    == rtp.payload_type@) {
                if let Some(known) = crate::codecs::codec_numbered(rtp.payload_type@) {
                    crate::codecs::law_payload_numbers_are_distinct(known, rtp.payload_type@);
                    assert(!codecs.contains(known));
                }
            }
        }
    }
}

/// Of those who wait for datagrams, the first of each kind gets it, as long as it is not too
/// long for them; RTCP is given only to those who take anything; and the others go on
/// waiting.
pub proof fn law_one_of_each_kind_is_served(
    before: UdpPacketReceives,
    after: UdpPacketReceives,
    info: RawUdpPacketInfo,
    bytes: Seq<u8>,
    given: Seq<(u64, Result<RawUdpPacket, Error>)>,
    i: int,
)
    requires
        datagram_given(before, after, info, bytes, given),
        0 <= i < given.len(),
    ensures
        ({
            let raw = before.waiting(LowLevelReceiveKind::RawUdp);
            let rtp = before.waiting(LowLevelReceiveKind::RtpUdp);
            let rtcp = info.raw_payload_type matches Some(byte) && 192 <= byte < 224;
            &&& given.len() <= 2
            &&& rtcp ==> after.waiting(LowLevelReceiveKind::RtpUdp) == rtp
            &&& !rtcp && rtp.len() > 0 ==> given.last().0 == rtp[0].0
            &&& raw.len() > 0 ==> given[0].0 == raw[0].0
            &&& given[i].1 matches Ok(packet) ==> packet.bytes@ == bytes
            &&& (raw.len() > 0 && i == 0 && bytes.len() > raw[0].1) ==> given[i].1 is Err
            &&& (raw.len() > 0 && i == 0 && bytes.len() <= raw[0].1) ==> given[i].1 is Ok
        }),
{
    assert(before.waiting(LowLevelReceiveKind::RtpUdp).skip(0) =~= before.waiting(
        LowLevelReceiveKind::RtpUdp,
    ));
}

/// Whoever asked for frames up to a length gets those as they are, and for a longer one an
/// error that says how long it is.
pub proof fn law_frames_are_given_up_to_the_length<Raw>(
    max_len: usize,
    frame: ReceivedFrame<Raw>,
    error: Error,
)
    ensures
        frame.frame@.len() <= max_len ==> frame_for(max_len, Ok(frame)) == Ok::<
            ReceivedFrame<Raw>,
            Error,
        >(frame),
        frame.frame@.len() > max_len ==> (frame_for::<Raw>(max_len, Ok(frame)) matches Err(
            Error::PayloadTooLarge { len, max_len: limit, .. },
        ) && len == frame.frame@.len() as usize && limit == max_len),
        frame_for::<Raw>(max_len, Err(error)) == Err::<ReceivedFrame<Raw>, Error>(error),
{
}

/// What is ready is kept in order, and never more than there is room for: the oldest goes
/// first, and only where there is no room.
pub proof fn law_ready_frames_are_kept_in_order<Raw: FrameRaw>(
    before: ReceivePipeline<Raw>,
    after: ReceivePipeline<Raw>,
    result: Result<ReceivedFrame<Raw>, Error>,
    telemetry: bool,
    old_reports: ReportsView,
    new_reports: ReportsView,
)
    requires
        frame_queued(before, after, result, telemetry, old_reports, new_reports),
        0 < before.ready_frames.room(),
        before.ready_frames@.len() <= before.ready_frames.room(),
    ensures
        ({
            let old = before.ready_frames@;
            let new = after.ready_frames@;
            &&& new.last() == result
            &&& new.len() <= after.ready_frames.room()
            &&& new.drop_last() == old.skip(old.len() + 1 - new.len())
            &&& old.len() < before.ready_frames.room() ==> new.len() == old.len() + 1
                && new_reports == old_reports
            &&& telemetry && old.len() == before.ready_frames.room()
                ==> new_reports.frames_dropped.len() == old_reports.frames_dropped.len() + 1
        }),
{
    let old = before.ready_frames@;
    let new = after.ready_frames@;
    assert(new.drop_last() =~= old.skip(old.len() + 1 - new.len()));
}

/// A frame goes to whoever has waited longest for one, and to the stream only where nobody
/// waits; every frame goes to one of them only, in the order in which they became ready.
pub proof fn law_callers_go_before_the_stream<Raw: FrameRaw, R>(
    before: ConnectionDriver<Raw, R>,
    after: ConnectionDriver<Raw, R>,
    stream_has_room: bool,
    step: ServeStep<Raw>,
)
    requires
        before.given(after, stream_has_room, step),
    ensures
        ({
            let ready = before.receive.ready_frames@;
            let waiting = before.frame_receives.waiting();
            let left = after.receive.ready_frames@;
            &&& step matches ServeStep::GiveCaller { id, .. } ==> waiting.len() > 0 && id
                == waiting[0] && left == ready.skip(1)
            &&& step matches ServeStep::GiveStream { id, .. } ==> waiting.len() == 0
                && stream_has_room && (before.frame_streams.open matches Some(stream) && stream.id
                == id) && left == ready.skip(1)
            &&& step is Done ==> left == ready && (ready.len() == 0 || waiting.len() == 0)
            &&& ready.len() > 0 && waiting.len() > 0 ==> step is GiveCaller
        }),
{
    let ready = before.receive.ready_frames@;
    if ready.len() > 0 {
        assert(ready.drop_first() =~= ready.skip(1));
    }
}

/// Once sources are forgotten nothing is left of them: no packets, no place in the line, no
/// media that waits and no frames that are ready; and all that is of other sources stays, in
/// its order.
pub proof fn law_forgotten_sources_leave_nothing<Raw: FrameRaw>(
    before: ReceivePipeline<Raw>,
    after: ReceivePipeline<Raw>,
    removed: Set<u32>,
    bucket: DavePendingMediaBucket,
    ssrc: u32,
)
    requires
        before.pruned(after, removed),
    ensures
        removed.contains(ssrc) ==> !after.state.sources().dom().contains(ssrc),
        !removed.contains(ssrc) && before.state.sources().dom().contains(ssrc)
            ==> after.state.sources().dom().contains(ssrc) && after.state.sources()[ssrc]
            == before.state.sources()[ssrc],
        after.state.line() == before.state.line().filter(|other: u32| !removed.contains(other)),
        after.state.waiting_media().bucket(bucket) == before.state.waiting_media().bucket(
            bucket,
        ).filter(|item: (Instant, PendingMediaFrame<Raw>)| !removed.contains(item.1.rtp.ssrc)),
        after.ready_frames@ == before.ready_frames@.filter(
            |result: Result<ReceivedFrame<Raw>, Error>|
                !(result matches Ok(frame) && removed.contains(frame.rtp.ssrc)),
        ),
{
    law_the_line_closes_up(before.state.line(), removed);
    law_other_sources_keep_waiting(before.state.waiting_media().bucket(bucket), removed);
    lemma_kept_frames(before.ready_frames@, removed);
    assert(after.state.waiting_media().bucket(bucket) == crate::state::receive::kept(
        before.state.waiting_media().bucket(bucket),
        removed,
    ));
}

proof fn lemma_kept_frames<Raw>(
    results: Seq<Result<ReceivedFrame<Raw>, Error>>,
    removed: Set<u32>,
)
    ensures
        kept_frames(results, removed) == results.filter(
            |result: Result<ReceivedFrame<Raw>, Error>|
                !(result matches Ok(frame) && removed.contains(frame.rtp.ssrc)),
        ),
    decreases results.len(),
{
    reveal(Seq::filter);
    if results.len() > 0 {
        lemma_kept_frames(results.drop_last(), removed);
    }
}

/// Callers who are gone wait no longer, and the others keep their order.
pub proof fn law_other_callers_keep_waiting(receives: Seq<(u64, usize)>, gone: Set<u64>)
    ensures
        still_waiting(receives, gone) == receives.filter(
            |receive: (u64, usize)| !gone.contains(receive.0),
        ),
    decreases receives.len(),
{
    reveal(Seq::filter);
    if receives.len() > 0 {
        law_other_callers_keep_waiting(receives.drop_last(), gone);
    }
}

/// Video is agreed on exactly where the session names a video codec that is known here and
/// there is a stream for it, and then it is that codec on that stream.
pub proof fn law_video_is_agreed_on(state: StateView)
    ensures
        agreed_video(state) matches Some(video) ==> {
            &&& video.codec != Codec::Opus
            &&& state.session_description matches Some(description)
            &&& description.video_codec matches Some(name)
            &&& crate::text::same_ignoring_case(
                name@,
                crate::codecs::wire_name(video.codec)@,
            )
            &&& exists|i: int|
                0 <= i < state.ready.streams@.len() && #[trigger] state.ready.streams@[i].ssrc
                    == video.ssrc && state.ready.streams@[i].active != Some(false)
        },
        agreed_video(state) is None && state.session_description is Some ==> {
            ||| state.session_description->0.video_codec is None
            ||| crate::codecs::video_codec_named(state.session_description->0.video_codec->0@)
                is None
            ||| crate::gateway::ready::video_stream(state.ready.streams@) is None
        },
{
    crate::gateway::ready::law_video_goes_on_a_live_stream(state.ready.streams@);
    if let Some(video) = agreed_video(state) {
        let at = crate::gateway::ready::video_stream(state.ready.streams@)->0;
        assert(state.ready.streams@[at].ssrc == video.ssrc);
    }
}

/// A new agreement never touches audio. A stream from the same source goes on with its
/// numbers, and so uses no nonce twice; one from another source begins at zero; and without
/// video there is none.
pub proof fn law_agreements_leave_numbers_in_order(
    before: SendPipeline,
    video: Option<NegotiatedVideoMedia>,
    after: SendPipeline,
)
    requires
        before.negotiated(video, after, Ok(())),
    ensures
        after.outbound_audio_rtp == before.outbound_audio_rtp,
        after.outbound_video_rtp is Some == video is Some,
        video matches Some(wanted) ==> {
            &&& after.outbound_video_rtp matches Some(stream)
            &&& stream.bound_codec() == wanted.codec
            &&& stream.bound_ssrc() == wanted.ssrc
            &&& if before.outbound_video_rtp matches Some(old) && old.bound_ssrc() == wanted.ssrc {
                let old = before.outbound_video_rtp->0;
                stream.next_seq() == old.next_seq() && stream.next_timestamp()
                    == old.next_timestamp() && stream.next_nonce() == old.next_nonce()
            } else {
                stream.next_seq() == 0 && stream.next_timestamp() == 0
            }
        },
{
}

/// Audio always has a stream, and video where it was agreed on: a codec goes out exactly
/// where it is the one of its stream.
pub proof fn law_codecs_go_out_on_their_stream(pipeline: SendPipeline, codec: Codec)
    ensures
        pipeline.refuses(codec) is None <==> {
            if codec == Codec::Opus {
                pipeline.outbound_audio_rtp.bound_codec() == Codec::Opus
            } else {
                pipeline.outbound_video_rtp matches Some(stream) && stream.bound_codec() == codec
            }
        },
{
}

/// While connecting, the event that is waited for is taken, others are kept or passed over
/// as was asked, and only a failure or the end ends it.
pub proof fn law_setup_takes_what_it_waits_for(message: SetupMessage, opcode: Opcode, keep: bool)
    ensures
        setup_step(message, opcode, keep) == SetupStep::Take <==> (message matches
            SetupMessage::Text { opcode: code, .. } && code == opcode.number()),
        setup_step(message, opcode, keep) == SetupStep::Keep ==> keep && (message is Text
            || message is Binary),
        keep && (message is Text || message is Binary) ==> setup_step(message, opcode, keep)
            != SetupStep::Skip,
        setup_failure(message) is Some == (message is Failed || message is Ended),
{
}

/// A connection that is just up knows itself and nobody else: one user, who is this one, no
/// sources and nobody who speaks; its session is the one that was described, with Opus first
/// among its codecs; and nothing of the encryption is under way.
pub proof fn law_new_connections_know_themselves(
    stage: AwaitingSession,
    description: SessionDescription,
    state: StateView,
    user: u64,
)
    requires
        just_up(stage, description, state),
    ensures
        state.connected.contains(user) == (user == stage.config.identity.user_id),
        state.users.dom() == Set::<u32>::empty(),
        state.speaking.dom() == Set::<u32>::empty(),
        !state.roster_authoritative,
        !state.resumed,
        state.session_description == Some(description),
        state.ready == stage.ready,
        state.selected_mode == stage.selected_mode,
        state.codecs matches Some(codecs) && codecs.len() > 0 && codecs[0] == Codec::Opus,
        state.dave.protocol_version == description.dave_protocol_version,
        state.dave.transition_id is None && state.dave.epoch is None,
        state.dave.proposals.len() == 0 && state.dave.external_sender is None,
        state.dave.requires_dave() == (description.dave_protocol_version matches Some(version)
            && version > 0),
{
}

/// No id is given out twice in a row, and none is zero.
pub proof fn law_ids_follow_each_other(id: u64)
    ensures
        next_receive(id) != id,
        next_receive(id) != 0,
        id < u64::MAX ==> next_receive(id) == id + 1,
{
}

/// A connection ends with a message exactly where it closes the connection or is the end of
/// all messages; those and the ones without a meaning here change nothing.
pub proof fn law_connections_end_when_closed(
    before: StateView,
    after: StateView,
    message: GatewayMessage,
    effects: Result<Option<GatewayEventEffects>, Error>,
)
    requires
        message_handled(before, after, message, effects),
    ensures
        effects matches Ok(None) <==> message is Close || message is Ended,
        message !is Text && message !is Binary ==> after == before,
        message is Failed ==> effects is Err,
{
}

/// The number of the last event is the one that came last: events without one keep it.
pub proof fn law_event_numbers_are_remembered(state: StateView, seq: i64)
    ensures
        numbered(state, Some(seq)).last_seq == Some(seq),
        numbered(state, None) == state,
        numbered(numbered(state, Some(seq)), None).last_seq == Some(seq),
        (StateView { last_seq: state.last_seq, ..numbered(state, Some(seq)) }) == state,
{
}

proof fn lemma_without_nothing(ids: Seq<u64>, id: u64)
    requires
        !ids.contains(id),
    ensures
        without(ids, id) == ids,
    decreases ids.len(),
{
    if ids.len() > 0 {
        let rest = ids.drop_last();
        assert(ids.last() != id);
        assert forall|i: int| 0 <= i < rest.len() implies rest[i] != id by {
            assert(ids[i] != id);
        }
        lemma_without_nothing(rest, id);
        assert(rest.push(ids.last()) =~= ids);
    }
}

/// Who asks for something that is not there yet goes to the end of the line of those who
/// asked for the same, under a number that the next one who asks does not get; nobody who
/// waits is passed over.
pub proof fn law_callers_stand_in_line<Raw: FrameRaw, R>(
    before: ConnectionDriver<Raw, R>,
    after: ConnectionDriver<Raw, R>,
    command: ConnectionCommand,
    session: DaveReadiness,
    now: Instant,
    outcome: CommandOutcome,
    kind: LowLevelReceiveKind,
)
    requires
        command_done(before, after, command, session, now, outcome),
    ensures
        after.closed == (before.closed || command is Close),
        outcome matches CommandOutcome::PacketWaits { id } ==> {
            &&& command matches ConnectionCommand::RecvUdpPacket { kind: wanted, max_len }
            &&& id != after.receive.next_receive_id
            &&& if kind == wanted {
                &&& after.receive.packet_receives.waiting(kind).last() == (id, max_len)
                &&& after.receive.packet_receives.waiting(kind).drop_last()
                    == before.receive.packet_receives.waiting(kind)
            } else {
                after.receive.packet_receives.waiting(kind)
                    == before.receive.packet_receives.waiting(kind)
            }
        },
        outcome matches CommandOutcome::FrameWaits { id } ==> {
            &&& id != after.receive.next_receive_id
            &&& after.frame_receives.waiting().last() == id
            &&& !before.frame_receives.waiting().contains(id)
                ==> after.frame_receives.waiting().drop_last() == before.frame_receives.waiting()
        },
        command matches ConnectionCommand::OpenFrameStream { max_len } ==> {
            &&& outcome is StreamOpened == before.frame_streams.open is None
            &&& outcome is StreamRefused == before.frame_streams.open is Some
            &&& before.frame_streams.open is None ==> (after.frame_streams.open matches Some(stream)
                && stream.max_len == max_len)
            &&& before.frame_streams.open is Some ==> after.frame_streams == before.frame_streams
        },
{
    let id = before.receive.next_receive_id;
    if !before.frame_receives.waiting().contains(id) {
        lemma_without_nothing(before.frame_receives.waiting(), id);
    }
    if outcome is FrameWaits {
        assert(after.frame_receives.waiting().drop_last() =~= without(
            before.frame_receives.waiting(),
            id,
        ));
    }
    if let ConnectionCommand::RecvUdpPacket { kind: wanted, .. } = command {
        if kind == wanted {
            assert(after.receive.packet_receives.waiting(kind).drop_last()
                =~= before.receive.packet_receives.waiting(kind));
        }
    }
}

/// Connecting takes at most fifteen seconds, finding the address five, and every other stage
/// ten.
pub proof fn law_stages_have_their_time(stage: ConnectStage)
    ensures
        stage_secs(stage) == (if stage is WebSocketConnect {
            15int
        } else if stage is UdpDiscovery {
            5
        } else {
            10
        }),
{
}

/// Media that could not be decrypted waits for a key, with the time that it came, and its
/// reason says whether it had a key that was not valid.
pub proof fn law_undecrypted_media_waits_for_a_key<Raw: FrameRaw>(
    before: ReceiveState<Raw>,
    after: ReceiveState<Raw>,
    media: PendingMediaFrame<Raw>,
    error: DaveDecryptError,
    may_still_change: bool,
    now: Instant,
    telemetry: bool,
    old_reports: ReportsView,
    new_reports: ReportsView,
    at: int,
)
    requires
        media_finished(
            before,
            after,
            media,
            Err(error),
            may_still_change,
            now,
            telemetry,
            old_reports,
            new_reports,
            None,
        ),
        at == due_by(
            before.waiting_media().bucket(DavePendingMediaBucket::DecryptStatePending),
            media.enqueued_at.later(before.waiting_media().patience()),
        ),
        0 <= at <= before.waiting_media().bucket(DavePendingMediaBucket::DecryptStatePending).len(),
    ensures
        ({
            let held = after.waiting_media().bucket(DavePendingMediaBucket::DecryptStatePending);
            &&& held.len() == before.waiting_media().bucket(
                DavePendingMediaBucket::DecryptStatePending,
            ).len() + 1
            &&& held[at].1.enqueued_at == media.enqueued_at
            &&& held[at].1.encrypted_frame == media.encrypted_frame
            &&& held[at].1.reason is NoValidCryptorPending <==> error.decode_kind()
                == ReceiveDecodeErrorKind::DaveNoValidCryptor
            &&& held[at].1.reason is NoValidCryptorPending || held[at].1.reason
                is DecryptStatePending
        }),
{
}

} // verus!
