//! What is done with a datagram, and with the media in it.

use super::pipeline::{
    datagram_given, datagram_taken, is_frame, media_admitted, ReceivePipeline,
};
use super::receive::{kept_frames, ReceiveReports, ReportsView};
use crate::errors::Error;
use crate::media::crypto::XCHACHA20_MAX_TEXT;
use crate::media::{FrameRaw, RawUdpPacket, RawUdpPacketInfo, ReceivedFrame, TransportCrypto};
use crate::state::retry::DavePendingMediaBucket;
use crate::state::receive::kept;
use crate::state::sources::line_without;
use crate::state::connection::StateView;
use crate::state::sources::ReceiveState;
use crate::state::{ConnectionInternalState, PendingMediaFrame};
use crate::time::Instant;
use std::collections::HashSet;
use vstd::prelude::*;

verus! {

/// What comes of a datagram: who gets it as it is, and the media in it. Control packets carry
/// none.
pub struct DatagramTurn<Raw> {
    pub info: RawUdpPacketInfo,
    pub given: Vec<(u64, Result<RawUdpPacket, Error>)>,
    pub media: Option<Result<Option<PendingMediaFrame<Raw>>, Error>>,
}

/// What is done with media.
pub enum MediaTurn<Raw> {
    /// It is a frame as it is.
    Ready(ReceivedFrame<Raw>),
    /// The session decrypts it.
    Decrypt(PendingMediaFrame<Raw>),
    /// It waits.
    Kept,
}

/// Whether that is done with media that is complete: it is a frame as it is where it is not
/// encrypted, and else it is let through to the session or waits.
pub open spec fn media_sorted<Raw: FrameRaw>(
    before: ReceiveState<Raw>,
    after: ReceiveState<Raw>,
    media: PendingMediaFrame<Raw>,
    state: StateView,
    transition_ready: Option<u16>,
    session_ready: bool,
    now: Instant,
    telemetry: bool,
    old_reports: ReportsView,
    new_reports: ReportsView,
    turn: MediaTurn<Raw>,
) -> bool {
    if !media.dave {
        &&& turn matches MediaTurn::Ready(frame)
        &&& is_frame(frame, media, media.encrypted_frame)
        &&& after == before
        &&& new_reports == old_reports
    } else {
        &&& turn !is Ready
        &&& media_admitted(
            before,
            after,
            media,
            state,
            transition_ready,
            session_ready,
            now,
            telemetry,
            old_reports,
            new_reports,
            (match turn {
                MediaTurn::Decrypt(media) => Some(media),
                _ => None,
            }),
        )
    }
}

impl<Raw> ReceivePipeline<Raw> where Raw: FrameRaw {
    /// Takes a datagram: those who wait for datagrams get it, and the media in it goes to
    /// its source.
    pub fn handle_received_udp_packet(
        &mut self,
        bytes: &[u8],
        state: &ConnectionInternalState,
        crypto: &TransportCrypto,
        now: Instant,
        telemetry: bool,
        reports: &mut ReceiveReports,
    ) -> (turn: DatagramTurn<Raw>)
        requires
            old(self).state.well_formed(),
            bytes@.len() <= XCHACHA20_MAX_TEXT,
            bytes@.len() + 20 <= usize::MAX,
        ensures
            final(self).state.well_formed(),
            final(self).ready_frames == old(self).ready_frames,
            final(self).next_receive_id == old(self).next_receive_id,
            turn.info == RawUdpPacketInfo::of(bytes@),
            datagram_given(
                old(self).packet_receives,
                final(self).packet_receives,
                turn.info,
                bytes@,
                turn.given@,
            ),
            if turn.info.rtcp() {
                &&& turn.media is None
                &&& final(self).state == old(self).state
                &&& final(reports)@ == old(reports)@
            } else {
                &&& turn.media matches Some(media)
                &&& datagram_taken(
                    old(self).state,
                    final(self).state,
                    *crypto,
                    state@,
                    bytes@,
                    turn.info,
                    now,
                    telemetry,
                    old(reports)@,
                    final(reports)@,
                    media,
                )
            },
    {
        let info = RawUdpPacketInfo::from_bytes(bytes);
        let given = self.packet_receives.resolve(info, bytes);
        if info.is_rtcp() {
            return DatagramTurn { info, given, media: None };
        }
        let media = self.decode_received_voice_packet(
            bytes,
            info,
            state,
            crypto,
            now,
            telemetry,
            reports,
        );
        DatagramTurn { info, given, media: Some(media) }
    }

    /// Decides what is done with media that is complete.
    pub fn sort_media(
        &mut self,
        media: PendingMediaFrame<Raw>,
        state: &ConnectionInternalState,
        transition_ready: Option<u16>,
        session_ready: bool,
        now: Instant,
        telemetry: bool,
        reports: &mut ReceiveReports,
    ) -> (turn: MediaTurn<Raw>)
        ensures
            final(self).ready_frames == old(self).ready_frames,
            final(self).packet_receives == old(self).packet_receives,
            final(self).next_receive_id == old(self).next_receive_id,
            media_sorted(
                old(self).state,
                final(self).state,
                media,
                state@,
                transition_ready,
                session_ready,
                now,
                telemetry,
                old(reports)@,
                final(reports)@,
                turn,
            ),
    {
        if !media.dave {
            return MediaTurn::Ready(Self::plain_frame(media));
        }
        match self.admit_dave_media(
            media,
            state,
            transition_ready,
            session_ready,
            now,
            telemetry,
            reports,
        ) {
            Some(media) => MediaTurn::Decrypt(media),
            None => MediaTurn::Kept,
        }
    }

    /// Forgets some sources: the media of theirs that waits, and the frames that are ready.
    pub fn prune_ssrcs(&mut self, removed_ssrcs: &HashSet<u32>)
        requires
            old(self).state.well_formed(),
        ensures
            final(self).state.well_formed(),
            final(self).packet_receives == old(self).packet_receives,
            final(self).next_receive_id == old(self).next_receive_id,
            old(self).pruned(*final(self), removed_ssrcs@),
    {
        self.state.prune_ssrcs(removed_ssrcs);
        self.ready_frames.prune_ssrcs(removed_ssrcs);
    }

    /// Whether nothing of some sources is left, and everything of the others is.
    pub open spec fn pruned(self, after: Self, removed: Set<u32>) -> bool {
        &&& after.state.limits() == self.state.limits()
        &&& after.state.sources() == self.state.sources().remove_keys(removed)
        &&& after.state.line() == line_without(self.state.line(), removed)
        &&& after.state.waiting_media().patience() == self.state.waiting_media().patience()
        &&& forall|bucket: DavePendingMediaBucket| #[trigger]
            after.state.waiting_media().bucket(bucket) == kept(
                self.state.waiting_media().bucket(bucket),
                removed,
            )
        &&& after.ready_frames@ == kept_frames(self.ready_frames@, removed)
        &&& after.ready_frames.room() == self.ready_frames.room()
    }
}

} // verus!
