//! Media on its way from the socket to the caller.

use crate::codec::Codec;
use crate::media::{FrameRaw, RtpHeader};
use crate::observer::{DavePendingMediaEvent, DavePendingMediaReason};
use crate::time::{duration_ms, Instant};
use vstd::prelude::*;

verus! {

/// A packet whose transport encryption is off.
pub struct PendingMediaPacket<Raw> where Raw: FrameRaw {
    pub raw: Raw::Packet,
    pub rtp: RtpHeader,
    pub user_id: Option<u64>,
    pub codec: Codec,
    pub encrypted_payload: Vec<u8>,
    pub dave: bool,
}

/// A frame whose end-to-end encryption may still be on.
pub struct PendingMediaFrame<Raw> {
    pub raw: Raw,
    pub rtp: RtpHeader,
    pub user_id: Option<u64>,
    pub codec: Codec,
    pub encrypted_frame: Vec<u8>,
    pub dave: bool,
    pub enqueued_at: Instant,
    pub reason: DavePendingMediaReason,
    pub was_pending: bool,
}

impl<Raw> PendingMediaFrame<Raw> {
    /// The report that this frame waits, or waits no longer.
    pub fn event(
        &self,
        pending_packets: usize,
        reason: DavePendingMediaReason,
        now: Instant,
    ) -> (event: DavePendingMediaEvent)
        ensures
            event == (DavePendingMediaEvent {
                reason,
                ssrc: self.rtp.ssrc,
                user_id: self.user_id,
                seq: self.rtp.seq,
                pending_packets,
                age_ms: now.elapsed_since(self.enqueued_at).in_ms(),
            }),
    {
        DavePendingMediaEvent {
            reason,
            ssrc: self.rtp.ssrc,
            user_id: self.user_id,
            seq: self.rtp.seq,
            pending_packets,
            age_ms: duration_ms(now.since(self.enqueued_at)),
        }
    }
}

} // verus!
