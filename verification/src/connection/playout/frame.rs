//! A packet that waits to be played.

use crate::opus::discord::{Packet, PacketBatch, PacketSpan};
use crate::time::Duration;
use std::sync::Arc;
use vstd::prelude::*;
use vstd::slice::slice_subrange;

verus! {

/// A packet that waits: on its own, or in the bytes of a batch.
#[derive(Debug)]
pub struct PlayoutFrame {
    payload: PlayoutPayload,
}

#[derive(Debug)]
enum PlayoutPayload {
    Packet(Packet),
    Batch { bytes: Arc<Vec<u8>>, span: PacketSpan },
}

impl View for PlayoutFrame {
    type V = Seq<u8>;

    closed spec fn view(&self) -> Seq<u8> {
        match self.payload {
            PlayoutPayload::Packet(packet) => packet@,
            PlayoutPayload::Batch { bytes, span } => bytes@.subrange(
                span.offset as int,
                span.offset + span.len,
            ),
        }
    }
}

impl PlayoutFrame {
    #[verifier::type_invariant]
    spec fn within(self) -> bool {
        self.payload matches PlayoutPayload::Batch { bytes, span } ==> span.offset + span.len
            <= bytes@.len()
    }

    pub fn packet(packet: Packet) -> (frame: Self)
        ensures
            frame@ == packet@,
    {
        PlayoutFrame { payload: PlayoutPayload::Packet(packet) }
    }

    /// The packets of a batch in turn. They share its bytes.
    pub fn packet_batch(packets: PacketBatch) -> (frames: Vec<Self>)
        ensures
            frames@.len() == packets@.len(),
            forall|i: int| 0 <= i < frames@.len() ==> (#[trigger] frames@[i])@ == packets@[i],
    {
        let ghost rows = packets@;
        let (bytes, spans) = packets.into_parts();
        let bytes = Arc::new(bytes);
        let len = spans.len();
        let mut frames: Vec<PlayoutFrame> = Vec::new();
        let mut i: usize = 0;
        while i < len
            invariant
                len == spans@.len(),
                rows.len() == len,
                i <= len,
                frames@.len() == i,
                forall|k: int|
                    0 <= k < len ==> (#[trigger] spans@[k]).offset + spans@[k].len <= bytes@.len()
                        && rows[k] == bytes@.subrange(
                        spans@[k].offset as int,
                        spans@[k].offset + spans@[k].len,
                    ),
                forall|k: int| 0 <= k < i ==> (#[trigger] frames@[k])@ == rows[k],
            decreases len - i,
        {
            let span = spans[i];
            frames.push(
                PlayoutFrame { payload: PlayoutPayload::Batch { bytes: bytes.clone(), span } },
            );
            i = i + 1;
        }
        frames
    }

    pub fn bytes(&self) -> (bytes: &[u8])
        ensures
            bytes@ == self@,
    {
        proof {
            use_type_invariant(self);
        }
        match &self.payload {
            PlayoutPayload::Packet(packet) => packet.bytes(),
            PlayoutPayload::Batch { bytes, span } => {
                let all: &Vec<u8> = bytes;
                let len = all.len();
                slice_subrange(all.as_slice(), span.offset, span.offset + span.len)
            },
        }
    }

    /// Every packet lasts 20 ms.
    pub fn duration(&self) -> (duration: Duration)
        ensures
            duration.nanos == 20_000_000,
    {
        match &self.payload {
            PlayoutPayload::Packet(packet) => packet.duration(),
            PlayoutPayload::Batch { bytes: _, span } => span.duration(),
        }
    }
}

/// The bytes of frames.
pub open spec fn frame_rows(frames: Seq<PlayoutFrame>) -> Seq<Seq<u8>> {
    frames.map_values(|frame: PlayoutFrame| frame@)
}

} // verus!
