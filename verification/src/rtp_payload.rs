//! Encoded frames in RTP payloads: cut up for sending, and put together again.

pub mod depacketize;
pub mod h26x;
pub mod laws;
pub mod received;
pub mod sent;

use crate::annex_b::{nalus, AnnexBNalus};
use crate::bytes::push_range;
use crate::codec::Codec;
use crate::errors::RtpError;
use crate::leb128::{uleb128, DecodedUleb128};
use self::h26x::H26x;
use vstd::prelude::*;

verus! {

/// The most media bytes that one RTP packet carries.
pub const RTP_MEDIA_PAYLOAD_MAX_BYTES: usize = 1_200;

/// One RTP payload, and whether its packet is marked.
pub struct RtpChunk {
    pub payload: Seq<u8>,
    pub marker: bool,
}

/// The payloads that come of a frame, and the error that ends them, if one does.
pub struct RtpPlan {
    pub chunks: Seq<RtpChunk>,
    pub failure: Option<RtpError>,
}

pub open spec fn smaller(a: int, b: int) -> int {
    if a <= b {
        a
    } else {
        b
    }
}

/// The one-byte payload headers of VP8 and VP9.
#[derive(Clone, Copy, Debug, PartialEq, Eq, Structural)]
pub enum FragmentedPayloadHeader {
    Vp8,
    Vp9,
}

impl FragmentedPayloadHeader {
    pub open spec fn byte(self, first: bool, last: bool) -> u8 {
        match self {
            FragmentedPayloadHeader::Vp8 => if first {
                0x10
            } else {
                0
            },
            FragmentedPayloadHeader::Vp9 => if first && last {
                0x0c
            } else if first {
                0x08
            } else if last {
                0x04
            } else {
                0
            },
        }
    }

    fn write(self, first: bool, last: bool, payload: &mut Vec<u8>)
        ensures
            final(payload)@ == old(payload)@.push(self.byte(first, last)),
    {
        let byte: u8 = match self {
            FragmentedPayloadHeader::Vp8 => if first {
                0x10
            } else {
                0
            },
            FragmentedPayloadHeader::Vp9 => if first && last {
                0x0c
            } else if first {
                0x08
            } else if last {
                0x04
            } else {
                0
            },
        };
        payload.push(byte);
    }
}

/// The rest of a VP8 or VP9 frame, from `offset` on.
pub open spec fn fragments_from(
    header: FragmentedPayloadHeader,
    frame: Seq<u8>,
    offset: int,
) -> Seq<RtpChunk>
    decreases frame.len() - offset,
{
    if offset < 0 || offset >= frame.len() {
        seq![]
    } else {
        let end = smaller(offset + 1_199, frame.len() as int);
        seq![
            RtpChunk {
                payload: seq![header.byte(offset == 0, end == frame.len())] + frame.subrange(
                    offset,
                    end,
                ),
                marker: end == frame.len(),
            },
        ] + fragments_from(header, frame, end)
    }
}

/// The rest of a NAL unit that is too long for one packet: fragmentation units, from
/// `offset` in what follows the unit's header. The last one of the frame's last unit
/// is marked.
pub open spec fn fragmentation_units_from(
    codec: H26x,
    nalu: Seq<u8>,
    offset: int,
    last_nalu: bool,
) -> Seq<RtpChunk>
    decreases nalu.len() - offset,
{
    let body_len = nalu.len() - codec.nal_header_len();
    if offset < 0 || offset >= body_len {
        seq![]
    } else {
        let end = smaller(offset + 1_200 - codec.fragment_header_len(), body_len);
        seq![
            RtpChunk {
                payload: codec.fragment_header(nalu, offset == 0, end == body_len)
                    + nalu.subrange(
                    codec.nal_header_len() + offset,
                    codec.nal_header_len() + end,
                ),
                marker: last_nalu && end == body_len,
            },
        ] + fragmentation_units_from(codec, nalu, end, last_nalu)
    }
}

/// The payloads of one NAL unit: itself, or its fragmentation units.
pub open spec fn nalu_chunks(codec: H26x, nalu: Seq<u8>, last_nalu: bool) -> Seq<RtpChunk> {
    if nalu.len() <= 1_200 {
        seq![RtpChunk { payload: nalu, marker: last_nalu }]
    } else {
        fragmentation_units_from(codec, nalu, 0, last_nalu)
    }
}

/// The payloads of the NAL units of a frame, in order.
pub open spec fn nalus_chunks(codec: H26x, units: Seq<Seq<u8>>) -> Seq<RtpChunk>
    decreases units.len(),
{
    if units.len() == 0 {
        seq![]
    } else {
        nalu_chunks(codec, units[0], units.len() == 1) + nalus_chunks(codec, units.drop_first())
    }
}

/// The rest of one AV1 open bitstream unit that lies from `start` to `end`, behind an
/// aggregation header that says how it continues.
pub open spec fn obu_chunks_from(frame: Seq<u8>, start: int, end: int, offset: int) -> Seq<
    RtpChunk,
>
    decreases end - offset,
{
    if offset < start || offset >= end || end > frame.len() {
        seq![]
    } else {
        let stop = smaller(offset + 1_199, end);
        seq![
            RtpChunk {
                payload: seq![aggregation_header(offset == start, stop == end)]
                    + frame.subrange(offset, stop),
                marker: end == frame.len() && stop == end,
            },
        ] + obu_chunks_from(frame, start, end, stop)
    }
}

/// One element to a packet; it continues an earlier one, and is continued.
pub open spec fn aggregation_header(first: bool, last: bool) -> u8 {
    if first && last {
        0x10
    } else if first {
        0x50
    } else if last {
        0x90
    } else {
        0xd0
    }
}

pub open spec fn malformed(codec: Codec, reason: &'static str) -> RtpError {
    RtpError::MalformedPayload { codec, reason }
}

/// Where the open bitstream unit that starts at `offset` ends.
pub open spec fn obu_end(frame: Seq<u8>, offset: int) -> Result<int, RtpError> {
    if offset < 0 || offset >= frame.len() {
        Err(malformed(Codec::Av1, "missing AV1 OBU header"))
    } else {
        let header = frame[offset];
        let index = if header & 0x04 != 0 {
            offset + 2
        } else {
            offset + 1
        };
        if index > usize::MAX {
            Err(malformed(Codec::Av1, "overflowing AV1 extension offset"))
        } else if index > frame.len() {
            Err(malformed(Codec::Av1, "truncated AV1 OBU extension"))
        } else if header & 0x02 == 0 {
            Ok(frame.len() as int)
        } else {
            match uleb128(frame.subrange(index, frame.len() as int)) {
                None => Err(malformed(Codec::Av1, "invalid AV1 OBU size")),
                Some((len, encoded_len)) => if len > usize::MAX {
                    Err(malformed(Codec::Av1, "oversized AV1 OBU size"))
                } else if index + encoded_len + len > frame.len() {
                    Err(malformed(Codec::Av1, "truncated AV1 OBU payload"))
                } else {
                    Ok((index + encoded_len + len) as int)
                },
            }
        }
    }
}

/// The payloads of the AV1 open bitstream units from `start` on.
pub open spec fn obus_plan_from(frame: Seq<u8>, start: int) -> RtpPlan
    decreases frame.len() - start,
{
    if start < 0 || start >= frame.len() {
        RtpPlan { chunks: seq![], failure: None }
    } else {
        match obu_end(frame, start) {
            Err(error) => RtpPlan { chunks: seq![], failure: Some(error) },
            Ok(end) => {
                let rest = obus_plan_from(frame, end);
                RtpPlan {
                    chunks: obu_chunks_from(frame, start, end, start) + rest.chunks,
                    failure: rest.failure,
                }
            },
        }
    }
}

/// The payloads of a whole frame.
pub open spec fn frame_plan(codec: Codec, frame: Seq<u8>) -> RtpPlan {
    match codec {
        Codec::Opus => if frame.len() > 1_200 {
            RtpPlan {
                chunks: seq![],
                failure: Some(
                    RtpError::PayloadTooLarge {
                        codec: Codec::Opus,
                        payload_len: frame.len() as usize,
                        max_payload_len: 1_200,
                    },
                ),
            }
        } else {
            RtpPlan {
                chunks: seq![RtpChunk { payload: frame, marker: false }],
                failure: None,
            }
        },
        Codec::Vp8 => RtpPlan {
            chunks: fragments_from(FragmentedPayloadHeader::Vp8, frame, 0),
            failure: None,
        },
        Codec::Vp9 => RtpPlan {
            chunks: fragments_from(FragmentedPayloadHeader::Vp9, frame, 0),
            failure: None,
        },
        Codec::H264 => RtpPlan {
            chunks: nalus_chunks(H26x::H264, nalus(frame)),
            failure: None,
        },
        Codec::H265 => RtpPlan {
            chunks: nalus_chunks(H26x::H265, nalus(frame)),
            failure: None,
        },
        Codec::Av1 => obus_plan_from(frame, 0),
    }
}

/// What keeps a frame from being cut up at all.
pub open spec fn frame_refusal(codec: Codec, frame: Seq<u8>) -> Option<RtpError> {
    if frame.len() == 0 {
        Some(malformed(codec, "empty encoded frame"))
    } else if (codec == Codec::H264 || codec == Codec::H265) && nalus(frame).len() == 0 {
        Some(malformed(codec, "missing Annex B start code"))
    } else {
        None
    }
}

#[derive(Clone, Copy, Debug, PartialEq, Eq)]
enum RtpPayloadPacketizerState<'a> {
    Single { frame: &'a [u8], emitted: bool },
    Fragmented { frame: &'a [u8], offset: usize, header: FragmentedPayloadHeader },
    H26x { codec: H26x, nalus: AnnexBNalus<'a>, nalu: Option<&'a [u8]>, fragment_offset: usize },
    Av1 { frame: &'a [u8], obu_start: usize, obu_end: usize, fragment_offset: usize },
    Done,
}

/// Cuts one encoded frame into RTP payloads.
#[derive(Clone, Copy, Debug, PartialEq, Eq)]
pub struct RtpPayloadPacketizer<'a> {
    codec: Codec,
    state: RtpPayloadPacketizerState<'a>,
}

impl<'a> RtpPayloadPacketizerState<'a> {
    spec fn plan(self, codec: Codec) -> RtpPlan {
        match self {
            RtpPayloadPacketizerState::Single { frame, emitted } => if emitted {
                RtpPlan { chunks: seq![], failure: None }
            } else {
                frame_plan(Codec::Opus, frame@)
            },
            RtpPayloadPacketizerState::Fragmented { frame, offset, header } => RtpPlan {
                chunks: fragments_from(header, frame@, offset as int),
                failure: None,
            },
            RtpPayloadPacketizerState::H26x { codec, nalus, nalu, fragment_offset } => RtpPlan {
                chunks: match nalu {
                    None => seq![],
                    Some(nalu) => (if nalu@.len() <= 1_200 {
                        nalu_chunks(codec, nalu@, nalus.remaining().len() == 0)
                    } else {
                        fragmentation_units_from(
                            codec,
                            nalu@,
                            fragment_offset as int,
                            nalus.remaining().len() == 0,
                        )
                    }) + nalus_chunks(codec, nalus.remaining()),
                },
                failure: None,
            },
            RtpPayloadPacketizerState::Av1 { frame, obu_start, obu_end, fragment_offset } => {
                if fragment_offset == 0 {
                    obus_plan_from(frame@, obu_start as int)
                } else {
                    let rest = obus_plan_from(frame@, obu_end as int);
                    RtpPlan {
                        chunks: obu_chunks_from(
                            frame@,
                            obu_start as int,
                            obu_end as int,
                            obu_start + fragment_offset,
                        ) + rest.chunks,
                        failure: rest.failure,
                    }
                }
            },
            RtpPayloadPacketizerState::Done => RtpPlan { chunks: seq![], failure: None },
        }
    }

    spec fn wf(self, codec: Codec) -> bool {
        match self {
            RtpPayloadPacketizerState::Single { .. } => codec == Codec::Opus,
            RtpPayloadPacketizerState::Fragmented { frame, offset, header } => offset
                <= frame@.len(),
            RtpPayloadPacketizerState::H26x { codec, nalus, nalu, fragment_offset } => {
                &&& nalu is None ==> nalus.remaining().len() == 0
                &&& nalu matches Some(nalu) ==> if nalu@.len() <= 1_200 {
                    fragment_offset == 0
                } else {
                    fragment_offset < nalu@.len() - codec.nal_header_len()
                }
            },
            RtpPayloadPacketizerState::Av1 { frame, obu_start, obu_end, fragment_offset } => {
                &&& codec == Codec::Av1
                &&& obu_start <= frame@.len()
                &&& fragment_offset > 0 ==> obu_start + fragment_offset < obu_end <= frame@.len()
            },
            RtpPayloadPacketizerState::Done => true,
        }
    }
}

proof fn lemma_obu_end(frame: Seq<u8>, offset: int)
    ensures
        obu_end(frame, offset) matches Ok(end) ==> offset < end <= frame.len(),
{
}

fn exec_malformed(codec: Codec, reason: &'static str) -> (error: RtpError)
    ensures
        error == malformed(codec, reason),
{
    RtpError::MalformedPayload { codec, reason }
}

fn av1_obu_end(frame: &[u8], offset: usize) -> (end: Result<usize, RtpError>)
    ensures
        match obu_end(frame@, offset as int) {
            Ok(at) => end == Ok::<usize, RtpError>(at as usize),
            Err(error) => end == Err::<usize, RtpError>(error),
        },
{
    let len = frame.len();
    if offset >= len {
        return Err(exec_malformed(Codec::Av1, "missing AV1 OBU header"));
    }
    let header = frame[offset];
    let mut index: usize = offset + 1;
    if header & 0x04 != 0 {
        index = match index.checked_add(1) {
            Some(index) => index,
            None => {
                return Err(exec_malformed(Codec::Av1, "overflowing AV1 extension offset"));
            },
        };
    }
    if index > len {
        return Err(exec_malformed(Codec::Av1, "truncated AV1 OBU extension"));
    }
    if header & 0x02 == 0 {
        return Ok(len);
    }
    let decoded = match DecodedUleb128::read(vstd::slice::slice_subrange(frame, index, len)) {
        Some(decoded) => decoded,
        None => {
            return Err(exec_malformed(Codec::Av1, "invalid AV1 OBU size"));
        },
    };
    if decoded.value > usize::MAX as u64 {
        return Err(exec_malformed(Codec::Av1, "oversized AV1 OBU size"));
    }
    let payload_len: usize = decoded.value as usize;
    let body: usize = index + decoded.encoded_len;
    if payload_len > len - body {
        return Err(exec_malformed(Codec::Av1, "truncated AV1 OBU payload"));
    }
    Ok(body + payload_len)
}

impl<'a> RtpPayloadPacketizer<'a> {
    /// The payloads that are still to come, and the error that ends them, if one does.
    pub closed spec fn plan(self) -> RtpPlan {
        self.state.plan(self.codec)
    }

    #[verifier::type_invariant]
    spec fn wf(self) -> bool {
        self.state.wf(self.codec)
    }

    /// Prepares to cut up `frame`. An empty frame is refused, and so is an H.264 or
    /// H.265 frame without a NAL unit.
    pub fn new(codec: Codec, frame: &'a [u8]) -> (packetizer: Result<Self, RtpError>)
        ensures
            match frame_refusal(codec, frame@) {
                Some(error) => packetizer == Err::<Self, RtpError>(error),
                None => packetizer matches Ok(packetizer) && packetizer.plan() == frame_plan(
                    codec,
                    frame@,
                ),
            },
    {
        if frame.is_empty() {
            return Err(exec_malformed(codec, "empty encoded frame"));
        }
        let state = match codec {
            Codec::Opus => RtpPayloadPacketizerState::Single { frame, emitted: false },
            Codec::Vp8 => RtpPayloadPacketizerState::Fragmented {
                frame,
                offset: 0,
                header: FragmentedPayloadHeader::Vp8,
            },
            Codec::Vp9 => RtpPayloadPacketizerState::Fragmented {
                frame,
                offset: 0,
                header: FragmentedPayloadHeader::Vp9,
            },
            Codec::H264 => match h26x_state(H26x::H264, frame) {
                Ok(state) => state,
                Err(error) => {
                    return Err(error);
                },
            },
            Codec::H265 => match h26x_state(H26x::H265, frame) {
                Ok(state) => state,
                Err(error) => {
                    return Err(error);
                },
            },
            Codec::Av1 => RtpPayloadPacketizerState::Av1 {
                frame,
                obu_start: 0,
                obu_end: 0,
                fragment_offset: 0,
            },
        };
        Ok(RtpPayloadPacketizer { codec, state })
    }

    /// Writes the next payload over `payload` and says whether its packet is marked;
    /// nothing where the frame is done. An error stays: the frame goes no further.
    pub fn next(&mut self, payload: &mut Vec<u8>) -> (marker: Result<Option<bool>, RtpError>)
        ensures
            ({
                let plan = old(self).plan();
                if plan.chunks.len() > 0 {
                    &&& marker == Ok::<Option<bool>, RtpError>(Some(plan.chunks[0].marker))
                    &&& final(payload)@ == plan.chunks[0].payload
                    &&& final(self).plan() == (RtpPlan {
                        chunks: plan.chunks.drop_first(),
                        failure: plan.failure,
                    })
                } else {
                    &&& marker == (match plan.failure {
                        Some(error) => Err::<Option<bool>, RtpError>(error),
                        None => Ok::<Option<bool>, RtpError>(None),
                    })
                    &&& final(payload)@ == Seq::<u8>::empty()
                    &&& final(self).plan() == plan
                }
            }),
    {
        proof {
            use_type_invariant(&*self);
        }
        payload.clear();
        let codec = self.codec;
        match self.state {
            RtpPayloadPacketizerState::Single { frame, emitted } => {
                if emitted {
                    self.state = RtpPayloadPacketizerState::Done;
                    return Ok(None);
                }
                let len = frame.len();
                if len > RTP_MEDIA_PAYLOAD_MAX_BYTES {
                    return Err(
                        RtpError::PayloadTooLarge {
                            codec,
                            payload_len: len,
                            max_payload_len: RTP_MEDIA_PAYLOAD_MAX_BYTES,
                        },
                    );
                }
                push_range(payload, frame, 0, len);
                assert(payload@ =~= frame@);
                self.state = RtpPayloadPacketizerState::Single { frame, emitted: true };
                assert(self.plan().chunks =~= old(self).plan().chunks.drop_first());
                Ok(Some(false))
            },
            RtpPayloadPacketizerState::Fragmented { frame, offset, header } => {
                if offset >= frame.len() {
                    self.state = RtpPayloadPacketizerState::Done;
                    return Ok(None);
                }
                let (end, marker) = next_fragmented_payload(frame, offset, header, payload);
                self.state = RtpPayloadPacketizerState::Fragmented { frame, offset: end, header };
                Ok(Some(marker))
            },
            RtpPayloadPacketizerState::H26x { codec: h26x, nalus, nalu, fragment_offset } => {
                match nalu {
                    None => {
                        self.state = RtpPayloadPacketizerState::Done;
                        Ok(None)
                    },
                    Some(nalu) => {
                        let (state, marker) = next_h26x_payload(
                            h26x,
                            nalus,
                            nalu,
                            fragment_offset,
                            payload,
                        );
                        self.state = state;
                        Ok(Some(marker))
                    },
                }
            },
            RtpPayloadPacketizerState::Av1 { frame, obu_start, obu_end, fragment_offset } => {
                if obu_start >= frame.len() {
                    self.state = RtpPayloadPacketizerState::Done;
                    return Ok(None);
                }
                match next_av1_payload(frame, obu_start, obu_end, fragment_offset, payload) {
                    Ok((state, marker)) => {
                        self.state = state;
                        Ok(Some(marker))
                    },
                    Err(error) => Err(error),
                }
            },
            RtpPayloadPacketizerState::Done => Ok(None),
        }
    }
}

/// The next payload of a VP8 or VP9 frame, where it ends, and whether it is the last.
fn next_fragmented_payload(
    frame: &[u8],
    offset: usize,
    header: FragmentedPayloadHeader,
    payload: &mut Vec<u8>,
) -> (next: (usize, bool))
    requires
        offset < frame@.len(),
        old(payload)@.len() == 0,
    ensures
        ({
            let before = fragments_from(header, frame@, offset as int);
            &&& before.len() > 0
            &&& final(payload)@ == before[0].payload
            &&& next.1 == before[0].marker
            &&& next.0 <= frame@.len()
            &&& fragments_from(header, frame@, next.0 as int) == before.drop_first()
        }),
{
    let len = frame.len();
    let end: usize = if len - offset <= RTP_MEDIA_PAYLOAD_MAX_BYTES - 1 {
        len
    } else {
        offset + (RTP_MEDIA_PAYLOAD_MAX_BYTES - 1)
    };
    header.write(offset == 0, end == len, payload);
    push_range(payload, frame, offset, end);
    proof {
        let before = fragments_from(header, frame@, offset as int);
        assert(before.drop_first() =~= fragments_from(header, frame@, end as int));
        assert(payload@ =~= before[0].payload);
    }
    (end, end == len)
}

/// The next payload of an AV1 frame, and the state behind it.
fn next_av1_payload<'a>(
    frame: &'a [u8],
    obu_start: usize,
    obu_end: usize,
    fragment_offset: usize,
    payload: &mut Vec<u8>,
) -> (next: Result<(RtpPayloadPacketizerState<'a>, bool), RtpError>)
    requires
        obu_start < frame@.len(),
        old(payload)@.len() == 0,
        (RtpPayloadPacketizerState::Av1 { frame, obu_start, obu_end, fragment_offset }).wf(
            Codec::Av1,
        ),
    ensures
        ({
            let before = (RtpPayloadPacketizerState::Av1 {
                frame,
                obu_start,
                obu_end,
                fragment_offset,
            }).plan(Codec::Av1);
            match next {
                Ok((state, marker)) => {
                    &&& before.chunks.len() > 0
                    &&& final(payload)@ == before.chunks[0].payload
                    &&& marker == before.chunks[0].marker
                    &&& state.plan(Codec::Av1).chunks == before.chunks.drop_first()
                    &&& state.plan(Codec::Av1).failure == before.failure
                    &&& state is Av1
                    &&& state.wf(Codec::Av1)
                },
                Err(error) => {
                    &&& before.chunks.len() == 0
                    &&& before.failure == Some(error)
                    &&& final(payload)@.len() == 0
                },
            }
        }),
{
    let len = frame.len();
    let mut stop: usize = obu_end;
    if fragment_offset == 0 {
        proof {
            lemma_obu_end(frame@, obu_start as int);
        }
        stop = match av1_obu_end(frame, obu_start) {
            Ok(end) => end,
            Err(error) => {
                return Err(error);
            },
        };
    }
    let ghost rest = obus_plan_from(frame@, stop as int);
    let ghost this = obu_chunks_from(
        frame@,
        obu_start as int,
        stop as int,
        obu_start + fragment_offset,
    );
    let ghost before = (RtpPayloadPacketizerState::Av1 {
        frame,
        obu_start,
        obu_end,
        fragment_offset,
    }).plan(Codec::Av1);
    assert(before == (RtpPlan { chunks: this + rest.chunks, failure: rest.failure }));
    let offset: usize = obu_start + fragment_offset;
    let end: usize = if stop - offset <= RTP_MEDIA_PAYLOAD_MAX_BYTES - 1 {
        stop
    } else {
        offset + (RTP_MEDIA_PAYLOAD_MAX_BYTES - 1)
    };
    let first = fragment_offset == 0;
    let last_fragment = end == stop;
    let header: u8 = if first && last_fragment {
        0x10
    } else if first {
        0x50
    } else if last_fragment {
        0x90
    } else {
        0xd0
    };
    payload.push(header);
    push_range(payload, frame, offset, end);
    proof {
        assert(payload@ =~= this[0].payload);
        assert(this.drop_first() =~= obu_chunks_from(
            frame@,
            obu_start as int,
            stop as int,
            end as int,
        ));
        assert(before.chunks.drop_first() =~= this.drop_first() + rest.chunks);
        if last_fragment {
            assert(this.drop_first() + rest.chunks =~= rest.chunks);
        }
    }
    if last_fragment {
        Ok(
            (
                RtpPayloadPacketizerState::Av1 {
                    frame,
                    obu_start: stop,
                    obu_end: stop,
                    fragment_offset: 0,
                },
                stop == len,
            ),
        )
    } else {
        Ok(
            (
                RtpPayloadPacketizerState::Av1 {
                    frame,
                    obu_start,
                    obu_end: stop,
                    fragment_offset: end - obu_start,
                },
                false,
            ),
        )
    }
}

fn h26x_state<'a>(codec: H26x, frame: &'a [u8]) -> (state: Result<
    RtpPayloadPacketizerState<'a>,
    RtpError,
>)
    ensures
        nalus(frame@).len() == 0 ==> state == Err::<RtpPayloadPacketizerState<'a>, RtpError>(
            malformed(codec.codec(), "missing Annex B start code"),
        ),
        nalus(frame@).len() > 0 ==> (state matches Ok(state) && state.wf(codec.codec())
            && state.plan(codec.codec()).failure is None && state.plan(codec.codec()).chunks
            == nalus_chunks(codec, nalus(frame@))),
{
    let mut units = AnnexBNalus::new(frame);
    match units.next() {
        Some(nalu) => Ok(
            RtpPayloadPacketizerState::H26x {
                codec,
                nalus: units,
                nalu: Some(nalu),
                fragment_offset: 0,
            },
        ),
        None => Err(exec_malformed(codec.as_codec(), "missing Annex B start code")),
    }
}

/// The next payload of a NAL unit, and the state behind it.
fn next_h26x_payload<'a>(
    codec: H26x,
    nalus: AnnexBNalus<'a>,
    nalu: &'a [u8],
    fragment_offset: usize,
    payload: &mut Vec<u8>,
) -> (next: (RtpPayloadPacketizerState<'a>, bool))
    requires
        old(payload)@.len() == 0,
        (RtpPayloadPacketizerState::H26x { codec, nalus, nalu: Some(nalu), fragment_offset }).wf(
            codec.codec(),
        ),
    ensures
        ({
            let before = (RtpPayloadPacketizerState::H26x {
                codec,
                nalus,
                nalu: Some(nalu),
                fragment_offset,
            }).plan(codec.codec());
            &&& before.chunks.len() > 0
            &&& final(payload)@ == before.chunks[0].payload
            &&& next.1 == before.chunks[0].marker
            &&& next.0.plan(codec.codec()).chunks == before.chunks.drop_first()
            &&& next.0.plan(codec.codec()).failure is None
            &&& next.0 is H26x
            &&& next.0.wf(codec.codec())
        }),
{
    let ghost before = (RtpPayloadPacketizerState::H26x {
        codec,
        nalus,
        nalu: Some(nalu),
        fragment_offset,
    }).plan(codec.codec());
    let mut units = nalus;
    let last_nalu = units.is_empty();
    let len = nalu.len();
    if len <= RTP_MEDIA_PAYLOAD_MAX_BYTES {
        push_range(payload, nalu, 0, len);
        let following = units.next();
        let next = RtpPayloadPacketizerState::H26x {
            codec,
            nalus: units,
            nalu: following,
            fragment_offset: 0,
        };
        assert(payload@ =~= before.chunks[0].payload);
        assert(before.chunks.drop_first() =~= nalus_chunks(codec, nalus.remaining()));
        assert(next.plan(codec.codec()).chunks =~= before.chunks.drop_first());
        return (next, last_nalu);
    }
    let header_len = codec.exec_nal_header_len();
    let body_len: usize = len - header_len;
    let room: usize = RTP_MEDIA_PAYLOAD_MAX_BYTES - codec.exec_fragment_header_len();
    let end: usize = if body_len - fragment_offset <= room {
        body_len
    } else {
        fragment_offset + room
    };
    let last = end == body_len;
    codec.write_fragment_header(nalu, fragment_offset == 0, last, payload);
    push_range(payload, nalu, header_len + fragment_offset, header_len + end);
    let ghost this = fragmentation_units_from(
        codec,
        nalu@,
        fragment_offset as int,
        last_nalu,
    );
    proof {
        assert(payload@ =~= before.chunks[0].payload);
        assert(this.drop_first() =~= fragmentation_units_from(
            codec,
            nalu@,
            end as int,
            last_nalu,
        ));
        assert(before.chunks.drop_first() =~= this.drop_first() + nalus_chunks(
            codec,
            nalus.remaining(),
        ));
    }
    if last {
        let following = units.next();
        let next = RtpPayloadPacketizerState::H26x {
            codec,
            nalus: units,
            nalu: following,
            fragment_offset: 0,
        };
        assert(next.plan(codec.codec()).chunks =~= before.chunks.drop_first());
        (next, last_nalu)
    } else {
        (
            RtpPayloadPacketizerState::H26x {
                codec,
                nalus: units,
                nalu: Some(nalu),
                fragment_offset: end,
            },
            false,
        )
    }
}

} // verus!
