//! What is done next about frames: media that is complete is sorted, what the session has
//! to decrypt is handed out, and the frames that are ready are given to those who wait.

use super::driver::ConnectionDriver;
use super::frames::frame_for;
use super::intake::{media_sorted, MediaTurn};
use super::pipeline::{
    decrypt_state_can_still_change, may_change, media_finished, retry_taken, ReceivePipeline,
    RetriedMedia,
};
use super::receive::{frame_dropped, ReceiveReports, ReportsView};
use crate::errors::{DaveDecryptError, Error};
use crate::media::{FrameRaw, ReceivedFrame};
use crate::observer::ReceiveRtpEvent;
use crate::state::connection::StateView;
use crate::state::retry::DavePendingMediaRetry;
use crate::state::sources::state_drained;
use crate::state::{ConnectionInternalState, PendingMediaFrame};
use crate::time::Instant;
use vstd::prelude::*;

verus! {

/// What is to be done about the media that is there.
pub enum FrameStep<Raw> {
    /// Something was done, and there may be more.
    Again,
    /// The session decrypts this. What comes of it goes to `take_decrypted`.
    Decrypt(PendingMediaFrame<Raw>),
    /// Nothing is left to do.
    Done,
}

/// What is to be done about the frames that are ready.
pub enum ServeStep<Raw> {
    /// Something was done, and there may be more.
    Again,
    /// The session decrypts this. What comes of it goes to `take_decrypted`.
    Decrypt(PendingMediaFrame<Raw>),
    /// A caller who waited for a frame gets this.
    GiveCaller { id: u64, result: Result<ReceivedFrame<Raw>, Error> },
    /// The stream gets this.
    GiveStream { id: u64, result: Result<ReceivedFrame<Raw>, Error> },
    /// Nothing is left to do.
    Done,
}

/// What decides about media beside the state of the connection: which transition is ready,
/// what the session says, the time, and whether reports are wanted.
#[derive(Clone, Copy, Debug, PartialEq, Eq, Structural)]
pub struct MediaMoment {
    pub transition_ready: Option<u16>,
    pub session_ready: bool,
    pub now: Instant,
    pub telemetry: bool,
}

/// Whether only the media in the pipeline is another, not what is ready or who waits.
pub open spec fn rest_kept<Raw: FrameRaw>(
    before: ReceivePipeline<Raw>,
    after: ReceivePipeline<Raw>,
) -> bool {
    &&& after.ready_frames == before.ready_frames
    &&& after.packet_receives == before.packet_receives
    &&& after.next_receive_id == before.next_receive_id
}

/// Whether a result was put behind those that are ready. Where there is no room, the oldest
/// one is dropped for it, with a report.
pub open spec fn frame_queued<Raw: FrameRaw>(
    before: ReceivePipeline<Raw>,
    after: ReceivePipeline<Raw>,
    result: Result<ReceivedFrame<Raw>, Error>,
    telemetry: bool,
    old_reports: ReportsView,
    new_reports: ReportsView,
) -> bool {
    let ready = before.ready_frames@;
    let full = ready.len() >= before.ready_frames.room() && ready.len() > 0;
    &&& after.state == before.state
    &&& after.packet_receives == before.packet_receives
    &&& after.next_receive_id == before.next_receive_id
    &&& after.ready_frames.room() == before.ready_frames.room()
    &&& after.ready_frames@ == (if full {
        ready.drop_first().push(result)
    } else {
        ready.push(result)
    })
    &&& new_reports == (if full && telemetry {
        old_reports.with_frame_dropped(frame_dropped(ready[0], (ready.len() - 1) as usize))
    } else {
        old_reports
    })
}

/// Whether media was sorted, and queued where it is a frame as it is. Says what the session
/// has to decrypt.
pub open spec fn media_taken<Raw: FrameRaw>(
    before: ReceivePipeline<Raw>,
    after: ReceivePipeline<Raw>,
    media: PendingMediaFrame<Raw>,
    state: StateView,
    moment: MediaMoment,
    old_reports: ReportsView,
    new_reports: ReportsView,
    decrypt: Option<PendingMediaFrame<Raw>>,
) -> bool {
    exists|turn: MediaTurn<Raw>, told: ReportsView|
        {
            &&& #[trigger] media_sorted(
                before.state,
                after.state,
                media,
                state,
                moment.transition_ready,
                moment.session_ready,
                moment.now,
                moment.telemetry,
                old_reports,
                told,
                turn,
            )
            &&& match turn {
                MediaTurn::Ready(frame) => {
                    &&& decrypt is None
                    &&& frame_queued(before, after, Ok(frame), moment.telemetry, told, new_reports)
                },
                MediaTurn::Decrypt(media) => {
                    &&& decrypt == Some(media)
                    &&& rest_kept(before, after)
                    &&& new_reports == told
                },
                MediaTurn::Kept => {
                    &&& decrypt is None
                    &&& rest_kept(before, after)
                    &&& new_reports == told
                },
            }
        }
}

/// What is done with what the sources gave: nothing where they gave nothing, an error is
/// queued, and media is sorted.
pub open spec fn result_taken<Raw: FrameRaw>(
    before: ReceivePipeline<Raw>,
    after: ReceivePipeline<Raw>,
    result: Result<Option<PendingMediaFrame<Raw>>, Error>,
    state: StateView,
    moment: MediaMoment,
    old_reports: ReportsView,
    new_reports: ReportsView,
    step: FrameStep<Raw>,
) -> bool {
    match result {
        Ok(None) => step is Done && after == before && new_reports == old_reports,
        Err(error) => {
            &&& step is Again
            &&& frame_queued(
                before,
                after,
                Err(error),
                moment.telemetry,
                old_reports,
                new_reports,
            )
        },
        Ok(Some(media)) => {
            &&& step !is Done
            &&& media_taken(
                before,
                after,
                media,
                state,
                moment,
                old_reports,
                new_reports,
                (match step {
                    FrameStep::Decrypt(media) => Some(media),
                    _ => None,
                }),
            )
        },
    }
}

/// What is done towards filling up the frames that are ready: nothing where there is no room
/// for one; else the sources are drained, and what they give is taken.
pub open spec fn collected<Raw: FrameRaw>(
    before: ReceivePipeline<Raw>,
    after: ReceivePipeline<Raw>,
    state: StateView,
    moment: MediaMoment,
    old_reports: ReportsView,
    new_reports: ReportsView,
    step: FrameStep<Raw>,
) -> bool {
    if before.ready_frames@.len() >= before.ready_frames.room() {
        step is Done && after == before && new_reports == old_reports
    } else {
        exists|
            between: ReceivePipeline<Raw>,
            rtp: Seq<ReceiveRtpEvent>,
            drained: Result<Option<PendingMediaFrame<Raw>>, Error>,
        |
            {
                let told = ReportsView { rtp, ..old_reports };
                &&& #[trigger] state_drained(
                    before.state,
                    between.state,
                    moment.now,
                    moment.telemetry,
                    old_reports.rtp,
                    rtp,
                    drained,
                )
                &&& rest_kept(before, between)
                &&& result_taken(between, after, drained, state, moment, told, new_reports, step)
            }
    }
}

/// What is done with what the session made of media: a frame or an error is queued, and
/// media that may be decrypted later waits.
pub open spec fn decrypted_taken<Raw: FrameRaw>(
    before: ReceivePipeline<Raw>,
    after: ReceivePipeline<Raw>,
    media: PendingMediaFrame<Raw>,
    decrypted: Result<Vec<u8>, DaveDecryptError>,
    state: StateView,
    moment: MediaMoment,
    old_reports: ReportsView,
    new_reports: ReportsView,
) -> bool {
    exists|result: Option<Result<ReceivedFrame<Raw>, Error>>, told: ReportsView|
        {
            &&& #[trigger] media_finished(
                before.state,
                after.state,
                media,
                decrypted,
                may_change(state.dave, moment.transition_ready, moment.session_ready),
                moment.now,
                moment.telemetry,
                old_reports,
                told,
                result,
            )
            &&& match result {
                Some(result) => frame_queued(
                    before,
                    after,
                    result,
                    moment.telemetry,
                    told,
                    new_reports,
                ),
                None => rest_kept(before, after) && new_reports == told,
            }
        }
}

/// What is done with the next media that waited: what has waited too long is dropped, and
/// the rest is sorted again.
pub open spec fn retry_stepped<Raw: FrameRaw>(
    before: ReceivePipeline<Raw>,
    after: ReceivePipeline<Raw>,
    retry: DavePendingMediaRetry,
    state: StateView,
    moment: MediaMoment,
    old_reports: ReportsView,
    new_reports: ReportsView,
    step: FrameStep<Raw>,
) -> bool {
    exists|between: ReceivePipeline<Raw>, told: ReportsView, retried: RetriedMedia<Raw>|
        {
            &&& #[trigger] retry_taken(
                before.state,
                between.state,
                retry,
                moment.now,
                moment.telemetry,
                old_reports,
                told,
                retried,
            )
            &&& rest_kept(before, between)
            &&& match retried {
                RetriedMedia::Nothing => {
                    &&& step is Done
                    &&& after == between
                    &&& new_reports == told
                },
                RetriedMedia::Expired => {
                    &&& step is Again
                    &&& after == between
                    &&& new_reports == told
                },
                RetriedMedia::Media(media) => result_taken(
                    between,
                    after,
                    Ok(Some(media)),
                    state,
                    moment,
                    told,
                    new_reports,
                    step,
                ),
            }
        }
}

impl<Raw> ReceivePipeline<Raw> where Raw: FrameRaw {
    /// Puts a result behind those that are ready.
    pub fn queue_frame(
        &mut self,
        result: Result<ReceivedFrame<Raw>, Error>,
        telemetry: bool,
        reports: &mut ReceiveReports,
    )
        ensures
            frame_queued(
                *old(self),
                *final(self),
                result,
                telemetry,
                old(reports)@,
                final(reports)@,
            ),
    {
        if let Some(event) = self.ready_frames.push(result, telemetry) {
            reports.frames_dropped.push(event);
        }
    }

    /// Takes what the sources gave.
    pub fn take_result(
        &mut self,
        result: Result<Option<PendingMediaFrame<Raw>>, Error>,
        state: &ConnectionInternalState,
        moment: MediaMoment,
        reports: &mut ReceiveReports,
    ) -> (step: FrameStep<Raw>)
        ensures
            old(self).state.well_formed() ==> final(self).state.well_formed(),
            result_taken(
                *old(self),
                *final(self),
                result,
                state@,
                moment,
                old(reports)@,
                final(reports)@,
                step,
            ),
    {
        let ghost before = *self;
        let ghost old_reports = reports@;
        let media = match result {
            Ok(Some(media)) => media,
            Ok(None) => {
                return FrameStep::Done;
            },
            Err(error) => {
                self.queue_frame(Err(error), moment.telemetry, reports);
                return FrameStep::Again;
            },
        };
        let turn = self.sort_media(
            media,
            state,
            moment.transition_ready,
            moment.session_ready,
            moment.now,
            moment.telemetry,
            reports,
        );
        let ghost sorted = turn;
        let ghost told = reports@;
        let step = match turn {
            MediaTurn::Ready(frame) => {
                self.queue_frame(Ok(frame), moment.telemetry, reports);
                FrameStep::Again
            },
            MediaTurn::Decrypt(media) => FrameStep::Decrypt(media),
            MediaTurn::Kept => FrameStep::Again,
        };
        assert(media_sorted(
            before.state,
            self.state,
            media,
            state@,
            moment.transition_ready,
            moment.session_ready,
            moment.now,
            moment.telemetry,
            old_reports,
            told,
            sorted,
        ));
        step
    }

    /// Fills up the frames that are ready, as far as one step goes.
    pub fn collect_step(
        &mut self,
        state: &ConnectionInternalState,
        moment: MediaMoment,
        reports: &mut ReceiveReports,
    ) -> (step: FrameStep<Raw>)
        requires
            old(self).state.well_formed(),
        ensures
            final(self).state.well_formed(),
            collected(
                *old(self),
                *final(self),
                state@,
                moment,
                old(reports)@,
                final(reports)@,
                step,
            ),
    {
        if !self.ready_frames.has_capacity() {
            return FrameStep::Done;
        }
        let ghost before = *self;
        let ghost old_reports = reports@;
        let drained = self.state.drain_ordered_media(
            moment.now,
            moment.telemetry,
            &mut reports.rtp,
        );
        let ghost given = drained;
        let ghost between = *self;
        let ghost rtp = reports@.rtp;
        let step = self.take_result(drained, state, moment, reports);
        assert(state_drained(
            before.state,
            between.state,
            moment.now,
            moment.telemetry,
            old_reports.rtp,
            rtp,
            given,
        ));
        step
    }

    /// Takes what the session made of media.
    pub fn take_decrypted(
        &mut self,
        media: PendingMediaFrame<Raw>,
        decrypted: Result<Vec<u8>, DaveDecryptError>,
        state: &ConnectionInternalState,
        moment: MediaMoment,
        reports: &mut ReceiveReports,
    )
        ensures
            old(self).state.well_formed() ==> final(self).state.well_formed(),
            decrypted_taken(
                *old(self),
                *final(self),
                media,
                decrypted,
                state@,
                moment,
                old(reports)@,
                final(reports)@,
            ),
    {
        let ghost before = *self;
        let ghost old_reports = reports@;
        let can_still_change = decrypt_state_can_still_change(
            &state.dave,
            moment.transition_ready,
            moment.session_ready,
        );
        let result = self.finish_dave_media(
            media,
            decrypted,
            can_still_change,
            moment.now,
            moment.telemetry,
            reports,
        );
        let ghost made = result;
        let ghost told = reports@;
        if let Some(result) = result {
            self.queue_frame(result, moment.telemetry, reports);
        }
        assert(media_finished(
            before.state,
            self.state,
            media,
            decrypted,
            may_change(state@.dave, moment.transition_ready, moment.session_ready),
            moment.now,
            moment.telemetry,
            old_reports,
            told,
            made,
        ));
    }

    /// Tries the next media that waited again.
    pub fn retry_step(
        &mut self,
        retry: DavePendingMediaRetry,
        state: &ConnectionInternalState,
        moment: MediaMoment,
        reports: &mut ReceiveReports,
    ) -> (step: FrameStep<Raw>)
        ensures
            old(self).state.well_formed() ==> final(self).state.well_formed(),
            retry_stepped(
                *old(self),
                *final(self),
                retry,
                state@,
                moment,
                old(reports)@,
                final(reports)@,
                step,
            ),
    {
        let ghost before = *self;
        let ghost old_reports = reports@;
        let retried = self.take_retry(retry, moment.now, moment.telemetry, reports);
        let ghost tried = retried;
        let ghost between = *self;
        let ghost told = reports@;
        let step = match retried {
            RetriedMedia::Nothing => FrameStep::Done,
            RetriedMedia::Expired => FrameStep::Again,
            RetriedMedia::Media(media) => self.take_result(
                Ok(Some(media)),
                state,
                moment,
                reports,
            ),
        };
        assert(retry_taken(
            before.state,
            between.state,
            retry,
            moment.now,
            moment.telemetry,
            old_reports,
            told,
            tried,
        ));
        step
    }
}

impl<Raw, R> ConnectionDriver<Raw, R> where Raw: FrameRaw {
    /// What decides about media now.
    pub fn media_moment(&self, session_ready: bool, now: Instant, telemetry: bool) -> (moment:
        MediaMoment)
        ensures
            moment == (MediaMoment {
                transition_ready: self.dave@.transition_ready,
                session_ready,
                now,
                telemetry,
            }),
    {
        MediaMoment { transition_ready: self.dave.transition_ready(), session_ready, now, telemetry }
    }

    /// Who gets the frame that is ready first: the caller who is served next, and the stream
    /// where nobody waits and it has room. Each gets it as they asked for.
    pub open spec fn given(self, after: Self, stream_has_room: bool, step: ServeStep<Raw>) -> bool {
        let ready = self.receive.ready_frames@;
        &&& after.receive.ready_frames.room() == self.receive.ready_frames.room()
        &&& if ready.len() > 0 && self.frame_receives.waiting().len() > 0 {
            let id = self.frame_receives.waiting()[0];
            let max_len = self.frame_receives.wishes()[id].max_len;
            &&& step == (ServeStep::GiveCaller { id, result: frame_for(max_len, ready[0]) })
            &&& after.receive.ready_frames@ == ready.drop_first()
            &&& after.frame_receives.waiting() == self.frame_receives.waiting().drop_first()
            &&& after.frame_receives.times() == self.frame_receives.times().remove(id)
            &&& after.frame_receives.wishes() == self.frame_receives.wishes().remove(id)
        } else if ready.len() > 0 && stream_has_room && self.frame_streams.open is Some {
            let stream = self.frame_streams.open->0;
            &&& step == (ServeStep::GiveStream {
                id: stream.id,
                result: frame_for(stream.max_len, ready[0]),
            })
            &&& after.receive.ready_frames@ == ready.drop_first()
            &&& after.frame_receives == self.frame_receives
        } else {
            &&& step is Done
            &&& after.receive.ready_frames@ == ready
            &&& after.frame_receives == self.frame_receives
        }
    }

    /// What is done about frames: while there is room for frames and media for them, it is
    /// collected; then the first frame is given.
    pub open spec fn served(
        self,
        after: Self,
        moment: MediaMoment,
        stream_has_room: bool,
        old_reports: ReportsView,
        new_reports: ReportsView,
        step: ServeStep<Raw>,
    ) -> bool {
        exists|between: ReceivePipeline<Raw>, collect: FrameStep<Raw>|
            {
                let filled = ConnectionDriver { receive: between, ..self };
                &&& #[trigger] collected(
                    self.receive,
                    between,
                    self.state@,
                    moment,
                    old_reports,
                    new_reports,
                    collect,
                )
                &&& match collect {
                    FrameStep::Again => step is Again && after == filled,
                    FrameStep::Decrypt(media) => {
                        &&& step == ServeStep::Decrypt(media)
                        &&& after == filled
                    },
                    FrameStep::Done => {
                        &&& filled.given(after, stream_has_room, step)
                        &&& after.receive.state == between.state
                        &&& after == (ConnectionDriver {
                            receive: ReceivePipeline {
                                ready_frames: after.receive.ready_frames,
                                ..between
                            },
                            frame_receives: after.frame_receives,
                            ..self
                        })
                    },
                }
            }
    }

    /// Gives frames out, as far as one step goes.
    pub fn serve_step(
        &mut self,
        moment: MediaMoment,
        stream_has_room: bool,
        reports: &mut ReceiveReports,
    ) -> (step: ServeStep<Raw>)
        requires
            old(self).well_formed(),
        ensures
            final(self).well_formed(),
            old(self).served(
                *final(self),
                moment,
                stream_has_room,
                old(reports)@,
                final(reports)@,
                step,
            ),
    {
        let ghost before = *self;
        let ghost old_reports = reports@;
        let collect = self.receive.collect_step(&self.state, moment, reports);
        let ghost between = self.receive;
        assert(collected(
            before.receive,
            between,
            before.state@,
            moment,
            old_reports,
            reports@,
            collect,
        ));
        match collect {
            FrameStep::Again => {
                return ServeStep::Again;
            },
            FrameStep::Decrypt(media) => {
                return ServeStep::Decrypt(media);
            },
            FrameStep::Done => {},
        }
        if let Some((id, result)) = self.frame_receives.give(&mut self.receive.ready_frames) {
            return ServeStep::GiveCaller { id, result };
        }
        if stream_has_room {
            if let Some((id, result)) = self.frame_streams.give(&mut self.receive.ready_frames) {
                return ServeStep::GiveStream { id, result };
            }
        }
        ServeStep::Done
    }
}

} // verus!
