//! RTP payloads, read: where a payload stands in its frame, and what it adds to it.

use super::h26x::H26x;
use super::malformed;
use crate::bytes::{be16, push_range, read_be16};
use crate::codec::Codec;
use crate::errors::RtpError;
use crate::leb128::{uleb128, DecodedUleb128};
use vstd::prelude::*;

verus! {

/// Whether a payload starts a frame, and whether it completes one.
#[derive(Clone, Copy, Debug, PartialEq, Eq, Structural)]
pub struct RtpPayloadBoundary {
    pub starts_frame: bool,
    pub completes_frame: bool,
}

/// What a payload holds, as sequences.
pub enum PayloadBody {
    Raw(Seq<u8>),
    Nalu(Seq<u8>),
    Aggregation(Codec, Seq<u8>),
    Fragment { starts: bool, completes: bool, header: Seq<u8>, data: Seq<u8> },
    Av1 { elements: u8, data: Seq<u8> },
}

/// The start code that goes before a NAL unit.
pub open spec fn long_start_code() -> Seq<u8> {
    seq![0u8, 0u8, 0u8, 1u8]
}

/// The NAL units of an aggregation payload from `at` on, each behind its length, as
/// they go into a frame; and the error that ends them, if one does.
pub open spec fn aggregation_bytes(codec: Codec, data: Seq<u8>, at: int) -> (
    Seq<u8>,
    Option<RtpError>,
)
    decreases data.len() - at,
{
    if at < 0 || at >= data.len() {
        (seq![], None)
    } else if at + 2 > data.len() {
        (seq![], Some(malformed(codec, "truncated H26x aggregation length")))
    } else {
        let start = at + 2;
        let end = start + be16(data[at], data[at + 1]);
        if end > data.len() {
            (seq![], Some(malformed(codec, "truncated H26x aggregation NAL unit")))
        } else {
            let rest = aggregation_bytes(codec, data, end);
            (long_start_code() + data.subrange(start, end) + rest.0, rest.1)
        }
    }
}

/// The elements of an AV1 payload from `at` on, `seen` of which are behind: each
/// behind its length, but for the last where their number is known.
pub open spec fn element_bytes(elements: u8, data: Seq<u8>, at: int, seen: nat) -> (
    Seq<u8>,
    Option<RtpError>,
)
    decreases data.len() - at,
{
    if at < 0 || at >= data.len() {
        (seq![], None)
    } else if elements != 0 && seen + 1 == elements {
        (data.subrange(at, data.len() as int), None)
    } else {
        match uleb128(data.subrange(at, data.len() as int)) {
            None => (seq![], Some(malformed(Codec::Av1, "invalid AV1 OBU length"))),
            Some((len, encoded_len)) => {
                let start = at + encoded_len;
                if len > usize::MAX {
                    (seq![], Some(malformed(Codec::Av1, "oversized AV1 OBU length")))
                } else if start + len > data.len() {
                    (seq![], Some(malformed(Codec::Av1, "truncated AV1 OBU element")))
                } else if encoded_len == 0 {
                    (seq![], None)
                } else {
                    let rest = element_bytes(elements, data, (start + len) as int, seen + 1);
                    (data.subrange(start as int, (start + len) as int) + rest.0, rest.1)
                }
            },
        }
    }
}

impl PayloadBody {
    /// What the payload adds to its frame, and the error that ends it, if one does.
    pub open spec fn adds(self) -> (Seq<u8>, Option<RtpError>) {
        match self {
            PayloadBody::Raw(data) => (data, None),
            PayloadBody::Nalu(nalu) => (long_start_code() + nalu, None),
            PayloadBody::Aggregation(codec, data) => aggregation_bytes(codec, data, 0),
            PayloadBody::Fragment { starts, completes, header, data } => (
                if starts {
                    long_start_code() + header + data
                } else {
                    data
                },
                None,
            ),
            PayloadBody::Av1 { elements, data } => if elements == 1 {
                (data, None)
            } else {
                element_bytes(elements, data, 0, 0)
            },
        }
    }
}

/// A payload, read.
pub type ReadPayload = Result<(RtpPayloadBoundary, PayloadBody), RtpError>;

/// The length of a VP8 payload descriptor, and whether the payload starts a frame.
pub open spec fn vp8_descriptor_of(payload: Seq<u8>) -> Result<(int, bool), RtpError> {
    if payload.len() == 0 {
        Err(malformed(Codec::Vp8, "empty VP8 payload"))
    } else {
        let starts = payload[0] & 0x10 != 0 && payload[0] & 0x0f == 0;
        if payload[0] & 0x80 == 0 {
            Ok((1, starts))
        } else if payload.len() < 2 {
            Err(malformed(Codec::Vp8, "truncated VP8 extension flags"))
        } else {
            let extension = payload[1];
            if extension & 0x80 != 0 && payload.len() < 3 {
                Err(malformed(Codec::Vp8, "truncated VP8 picture id"))
            } else {
                let picture_id: int = if extension & 0x80 == 0 {
                    0
                } else if payload[2] & 0x80 != 0 {
                    2
                } else {
                    1
                };
                let level: int = if extension & 0x40 != 0 {
                    1
                } else {
                    0
                };
                let key: int = if extension & 0x30 != 0 {
                    1
                } else {
                    0
                };
                let len = 2 + picture_id + level + key;
                if len > payload.len() {
                    Err(malformed(Codec::Vp8, "truncated VP8 payload descriptor"))
                } else {
                    Ok((len, starts))
                }
            }
        }
    }
}

/// Behind the reference indices that start at `at`: the last one has its low bit clear.
pub open spec fn vp9_references_end(payload: Seq<u8>, at: int) -> Option<int>
    decreases payload.len() - at,
{
    if at < 0 || at >= payload.len() {
        None
    } else if payload[at] & 0x01 == 0 {
        Some(at + 1)
    } else {
        vp9_references_end(payload, at + 1)
    }
}

/// Behind `count` pictures of a picture group that starts at `at`.
pub open spec fn vp9_pictures_end(payload: Seq<u8>, at: int, count: nat) -> Option<int>
    decreases count,
{
    if count == 0 {
        Some(at)
    } else if at < 0 || at >= payload.len() {
        None
    } else {
        vp9_pictures_end(
            payload,
            at + 1 + (payload[at] & 0x03),
            (count - 1) as nat,
        )
    }
}

/// Behind the scalability structure that starts at `at`.
pub open spec fn vp9_scalability_end(payload: Seq<u8>, at: int) -> Result<int, RtpError> {
    if at < 0 || at >= payload.len() {
        Err(malformed(Codec::Vp9, "truncated VP9 scalability structure"))
    } else {
        let header = payload[at];
        let sizes: int = if header & 0x10 != 0 {
            ((header & 0x07) + 1) * 4
        } else {
            0
        };
        let group = at + 1 + sizes;
        if header & 0x08 == 0 {
            Ok(group)
        } else if group >= payload.len() {
            Err(malformed(Codec::Vp9, "truncated VP9 picture group"))
        } else {
            match vp9_pictures_end(payload, group + 1, payload[group] as nat) {
                Some(end) => Ok(end),
                None => Err(malformed(Codec::Vp9, "truncated VP9 picture group entry")),
            }
        }
    }
}

/// Where the optional picture id and layer indices of a VP9 descriptor end.
pub open spec fn vp9_layers_end(payload: Seq<u8>) -> Result<int, RtpError> {
    if payload.len() == 0 {
        Err(malformed(Codec::Vp9, "empty VP9 payload"))
    } else {
        let flags = payload[0];
        if flags & 0x80 != 0 && payload.len() < 2 {
            Err(malformed(Codec::Vp9, "truncated VP9 picture id"))
        } else {
            let picture_id: int = if flags & 0x80 == 0 {
                0
            } else if payload[1] & 0x80 != 0 {
                2
            } else {
                1
            };
            let layers: int = if flags & 0x20 == 0 {
                0
            } else if flags & 0x10 == 0 {
                2
            } else {
                1
            };
            Ok(1 + picture_id + layers)
        }
    }
}

/// The length of a VP9 payload descriptor.
pub open spec fn vp9_descriptor_len(payload: Seq<u8>) -> Result<int, RtpError> {
    match vp9_layers_end(payload) {
        Err(error) => Err(error),
        Ok(layers_end) => {
            let flags = payload[0];
            let references_end = if flags & 0x10 != 0 && flags & 0x40 != 0 {
                vp9_references_end(payload, layers_end)
            } else {
                Some(layers_end)
            };
            match references_end {
                None => Err(malformed(Codec::Vp9, "truncated VP9 reference indices")),
                Some(at) => {
                    let end = if flags & 0x02 != 0 {
                        vp9_scalability_end(payload, at)
                    } else {
                        Ok(at)
                    };
                    match end {
                        Err(error) => Err(error),
                        Ok(len) => if len > payload.len() {
                            Err(malformed(Codec::Vp9, "truncated VP9 payload descriptor"))
                        } else {
                            Ok(len)
                        },
                    }
                },
            }
        },
    }
}

/// What the header of a fragmentation unit says, and what follows it.
pub open spec fn fragment_of(codec: H26x, payload: Seq<u8>) -> Result<PayloadBody, RtpError> {
    match codec {
        H26x::H264 => if payload.len() < 3 {
            Err(malformed(Codec::H264, "truncated H264 FU-A payload"))
        } else {
            Ok(
                PayloadBody::Fragment {
                    starts: payload[1] & 0x80 != 0,
                    completes: payload[1] & 0x40 != 0,
                    header: seq![(payload[0] & 0xe0) | (payload[1] & 0x1f)],
                    data: payload.subrange(2, payload.len() as int),
                },
            )
        },
        H26x::H265 => if payload.len() < 4 {
            Err(malformed(Codec::H265, "truncated H265 FU payload"))
        } else {
            Ok(
                PayloadBody::Fragment {
                    starts: payload[2] & 0x80 != 0,
                    completes: payload[2] & 0x40 != 0,
                    header: seq![
                        (payload[0] & 0x81) | ((payload[2] & 0x3f) << 1),
                        payload[1],
                    ],
                    data: payload.subrange(3, payload.len() as int),
                },
            )
        },
    }
}

/// An H.264 or H.265 payload, read.
pub open spec fn read_h26x(
    codec: H26x,
    payload: Seq<u8>,
    marker: bool,
    has_partial_frame: bool,
) -> ReadPayload {
    if payload.len() < codec.nal_header_len() {
        Err(
            match codec {
                H26x::H264 => malformed(Codec::H264, "empty H264 payload"),
                H26x::H265 => malformed(Codec::H265, "truncated H265 payload header"),
            },
        )
    } else {
        let nalu_type = codec.nal_type(payload[0]);
        let whole = RtpPayloadBoundary {
            starts_frame: !has_partial_frame,
            completes_frame: marker,
        };
        if codec.is_single(nalu_type) {
            Ok((whole, PayloadBody::Nalu(payload)))
        } else if codec.is_aggregation(nalu_type) {
            Ok(
                (
                    whole,
                    PayloadBody::Aggregation(
                        codec.codec(),
                        payload.subrange(codec.nal_header_len(), payload.len() as int),
                    ),
                ),
            )
        } else if codec.is_fragment(nalu_type) {
            match fragment_of(codec, payload) {
                Err(error) => Err(error),
                Ok(body) => Ok(
                    (
                        RtpPayloadBoundary {
                            starts_frame: body->starts,
                            completes_frame: marker && body->completes,
                        },
                        body,
                    ),
                ),
            }
        } else {
            Err(
                match codec {
                    H26x::H264 => malformed(Codec::H264, "unsupported H264 RTP NAL unit type"),
                    H26x::H265 => malformed(Codec::H265, "unsupported H265 RTP NAL unit type"),
                },
            )
        }
    }
}

/// A payload of any codec, read. Whether a frame is under way decides, for some
/// codecs, whether the payload can start one.
pub open spec fn read_payload(
    codec: Codec,
    payload: Seq<u8>,
    marker: bool,
    has_partial_frame: bool,
) -> ReadPayload {
    match codec {
        Codec::Opus => Ok(
            (
                RtpPayloadBoundary { starts_frame: true, completes_frame: true },
                PayloadBody::Raw(payload),
            ),
        ),
        Codec::Vp8 => match vp8_descriptor_of(payload) {
            Err(error) => Err(error),
            Ok((len, starts_frame)) => Ok(
                (
                    RtpPayloadBoundary {
                        starts_frame,
                        completes_frame: marker && payload.len() > len,
                    },
                    PayloadBody::Raw(payload.subrange(len, payload.len() as int)),
                ),
            ),
        },
        Codec::Vp9 => match vp9_descriptor_len(payload) {
            Err(error) => Err(error),
            Ok(len) => Ok(
                (
                    RtpPayloadBoundary {
                        starts_frame: payload[0] & 0x08 != 0,
                        completes_frame: marker || payload[0] & 0x04 != 0,
                    },
                    PayloadBody::Raw(payload.subrange(len, payload.len() as int)),
                ),
            ),
        },
        Codec::H264 => read_h26x(H26x::H264, payload, marker, has_partial_frame),
        Codec::H265 => read_h26x(H26x::H265, payload, marker, has_partial_frame),
        Codec::Av1 => if payload.len() == 0 {
            Err(malformed(Codec::Av1, "empty AV1 payload"))
        } else {
            Ok(
                (
                    RtpPayloadBoundary {
                        starts_frame: !has_partial_frame && payload[0] & 0x80 == 0,
                        completes_frame: marker,
                    },
                    PayloadBody::Av1 {
                        elements: (payload[0] >> 4) & 0x03,
                        data: payload.subrange(1, payload.len() as int),
                    },
                ),
            )
        },
    }
}

#[derive(Clone, Copy, Debug, PartialEq, Eq)]
struct H26xFragmentPayload<'a> {
    starts_fragment: bool,
    completes_fragment: bool,
    nalu_header: [u8; 2],
    nalu_header_len: usize,
    fragment_payload: &'a [u8],
}

#[derive(Clone, Copy, Debug, PartialEq, Eq)]
enum DepacketizedPayload<'a> {
    Raw(&'a [u8]),
    H26xNalu(&'a [u8]),
    H26xAggregation { codec: Codec, payload: &'a [u8] },
    H26xFragment(H26xFragmentPayload<'a>),
    Av1 { w: u8, payload: &'a [u8] },
}

/// A payload that has been read.
#[derive(Clone, Copy, Debug, PartialEq, Eq)]
pub struct ParsedRtpPayload<'a> {
    boundary: RtpPayloadBoundary,
    depacketized: DepacketizedPayload<'a>,
}

impl<'a> H26xFragmentPayload<'a> {
    spec fn body(self) -> PayloadBody {
        PayloadBody::Fragment {
            starts: self.starts_fragment,
            completes: self.completes_fragment,
            header: self.nalu_header@.subrange(0, self.nalu_header_len as int),
            data: self.fragment_payload@,
        }
    }
}

impl<'a> DepacketizedPayload<'a> {
    spec fn body(self) -> PayloadBody {
        match self {
            DepacketizedPayload::Raw(payload) => PayloadBody::Raw(payload@),
            DepacketizedPayload::H26xNalu(nalu) => PayloadBody::Nalu(nalu@),
            DepacketizedPayload::H26xAggregation {
                codec,
                payload,
            } => PayloadBody::Aggregation(codec, payload@),
            DepacketizedPayload::H26xFragment(fragment) => fragment.body(),
            DepacketizedPayload::Av1 { w, payload } => PayloadBody::Av1 {
                elements: w,
                data: payload@,
            },
        }
    }
}

fn error_of(codec: Codec, reason: &'static str) -> (error: RtpError)
    ensures
        error == malformed(codec, reason),
{
    RtpError::MalformedPayload { codec, reason }
}

fn from_to_end(bytes: &[u8], from: usize) -> (rest: &[u8])
    requires
        from <= bytes@.len(),
    ensures
        rest@ == bytes@.subrange(from as int, bytes@.len() as int),
{
    vstd::slice::slice_subrange(bytes, from, bytes.len())
}

fn vp8_descriptor(payload: &[u8]) -> (descriptor: Result<(usize, bool), RtpError>)
    ensures
        match vp8_descriptor_of(payload@) {
            Ok((len, starts)) => descriptor == Ok::<(usize, bool), RtpError>(
                (len as usize, starts),
            ) && 1 <= len <= payload@.len(),
            Err(error) => descriptor == Err::<(usize, bool), RtpError>(error),
        },
{
    let payload_len = payload.len();
    if payload_len == 0 {
        return Err(error_of(Codec::Vp8, "empty VP8 payload"));
    }
    let first = payload[0];
    let mut len: usize = 1;
    if first & 0x80 != 0 {
        if payload_len < 2 {
            return Err(error_of(Codec::Vp8, "truncated VP8 extension flags"));
        }
        let extension = payload[1];
        len = 2;
        if extension & 0x80 != 0 {
            if payload_len < 3 {
                return Err(error_of(Codec::Vp8, "truncated VP8 picture id"));
            }
            len = if payload[2] & 0x80 != 0 {
                4
            } else {
                3
            };
        }
        if extension & 0x40 != 0 {
            len = len + 1;
        }
        if extension & 0x30 != 0 {
            len = len + 1;
        }
    }
    if len > payload_len {
        return Err(error_of(Codec::Vp8, "truncated VP8 payload descriptor"));
    }
    Ok((len, first & 0x10 != 0 && first & 0x0f == 0))
}

fn exec_vp9_references_end(payload: &[u8], from: usize) -> (end: Option<usize>)
    ensures
        match vp9_references_end(payload@, from as int) {
            Some(at) => end == Some(at as usize) && from <= at <= payload@.len(),
            None => end is None,
        },
{
    let len = payload.len();
    let mut at: usize = from;
    while at < len
        invariant
            len == payload@.len(),
            from <= at,
            vp9_references_end(payload@, from as int) == vp9_references_end(payload@, at as int),
        decreases len - at,
    {
        if payload[at] & 0x01 == 0 {
            return Some(at + 1);
        }
        at = at + 1;
    }
    None
}

fn exec_vp9_pictures_end(payload: &[u8], from: u128, pictures: u8) -> (end: Option<u128>)
    requires
        from <= usize::MAX + 64,
    ensures
        match vp9_pictures_end(payload@, from as int, pictures as nat) {
            Some(at) => (end matches Some(e) && e == at) && from <= at,
            None => end is None,
        },
{
    let len: u128 = payload.len() as u128;
    let mut at: u128 = from;
    let mut left: u8 = pictures;
    while left > 0
        invariant
            len == payload@.len(),
            len <= usize::MAX,
            from <= at <= usize::MAX + 64,
            vp9_pictures_end(payload@, from as int, pictures as nat) == vp9_pictures_end(
                payload@,
                at as int,
                left as nat,
            ),
        decreases left,
    {
        if at >= len {
            return None;
        }
        let picture = payload[at as usize];
        assert(picture & 0x03 <= 3) by (bit_vector);
        at = at + 1 + (picture & 0x03) as u128;
        left = left - 1;
    }
    Some(at)
}

fn skip_vp9_scalability_structure(payload: &[u8], from: usize) -> (end: Result<u128, RtpError>)
    ensures
        match vp9_scalability_end(payload@, from as int) {
            Ok(at) => (end matches Ok(e) && e == at) && from <= at,
            Err(error) => end == Err::<u128, RtpError>(error),
        },
{
    let len: u128 = payload.len() as u128;
    if from >= payload.len() {
        return Err(error_of(Codec::Vp9, "truncated VP9 scalability structure"));
    }
    let header = payload[from];
    let mut at: u128 = from as u128 + 1;
    assert(header & 0x07 <= 7) by (bit_vector);
    if header & 0x10 != 0 {
        at = at + ((header & 0x07) as u128 + 1) * 4;
    }
    if header & 0x08 != 0 {
        if at >= len {
            return Err(error_of(Codec::Vp9, "truncated VP9 picture group"));
        }
        let pictures = payload[at as usize];
        return match exec_vp9_pictures_end(payload, at + 1, pictures) {
            Some(end) => Ok(end),
            None => Err(error_of(Codec::Vp9, "truncated VP9 picture group entry")),
        };
    }
    Ok(at)
}

fn exec_vp9_descriptor_len(payload: &[u8]) -> (descriptor: Result<usize, RtpError>)
    ensures
        match vp9_descriptor_len(payload@) {
            Ok(len) => descriptor == Ok::<usize, RtpError>(len as usize) && 1 <= len <= payload@.len(),
            Err(error) => descriptor == Err::<usize, RtpError>(error),
        },
{
    let payload_len = payload.len();
    if payload_len == 0 {
        return Err(error_of(Codec::Vp9, "empty VP9 payload"));
    }
    let flags = payload[0];
    let mut len: usize = 1;
    if flags & 0x80 != 0 {
        if payload_len < 2 {
            return Err(error_of(Codec::Vp9, "truncated VP9 picture id"));
        }
        len = if payload[1] & 0x80 != 0 {
            3
        } else {
            2
        };
    }
    if flags & 0x20 != 0 {
        len = if flags & 0x10 == 0 {
            len + 2
        } else {
            len + 1
        };
    }
    if flags & 0x10 != 0 && flags & 0x40 != 0 {
        len = match exec_vp9_references_end(payload, len) {
            Some(end) => end,
            None => {
                return Err(error_of(Codec::Vp9, "truncated VP9 reference indices"));
            },
        };
    }
    if flags & 0x02 != 0 {
        let end: u128 = match skip_vp9_scalability_structure(payload, len) {
            Ok(end) => end,
            Err(error) => {
                return Err(error);
            },
        };
        if end > payload_len as u128 {
            return Err(error_of(Codec::Vp9, "truncated VP9 payload descriptor"));
        }
        len = end as usize;
    }
    if len > payload_len {
        return Err(error_of(Codec::Vp9, "truncated VP9 payload descriptor"));
    }
    Ok(len)
}

fn parse_fragment_payload<'a>(codec: H26x, payload: &'a [u8]) -> (fragment: Result<
    H26xFragmentPayload<'a>,
    RtpError,
>)
    ensures
        match fragment_of(codec, payload@) {
            Ok(body) => fragment matches Ok(fragment) && fragment.body() == body
                && fragment.nalu_header_len <= 2,
            Err(error) => fragment == Err::<H26xFragmentPayload<'a>, RtpError>(error),
        },
{
    match codec {
        H26x::H264 => {
            if payload.len() < 3 {
                return Err(error_of(Codec::H264, "truncated H264 FU-A payload"));
            }
            let fragment = H26xFragmentPayload {
                starts_fragment: payload[1] & 0x80 != 0,
                completes_fragment: payload[1] & 0x40 != 0,
                nalu_header: [(payload[0] & 0xe0) | (payload[1] & 0x1f), 0],
                nalu_header_len: 1,
                fragment_payload: from_to_end(payload, 2),
            };
            assert(fragment.nalu_header@.subrange(0, 1) =~= seq![
                (payload@[0] & 0xe0) | (payload@[1] & 0x1f),
            ]);
            Ok(fragment)
        },
        H26x::H265 => {
            if payload.len() < 4 {
                return Err(error_of(Codec::H265, "truncated H265 FU payload"));
            }
            let fragment = H26xFragmentPayload {
                starts_fragment: payload[2] & 0x80 != 0,
                completes_fragment: payload[2] & 0x40 != 0,
                nalu_header: [
                    (payload[0] & 0x81) | ((payload[2] & 0x3f) << 1),
                    payload[1],
                ],
                nalu_header_len: 2,
                fragment_payload: from_to_end(payload, 3),
            };
            assert(fragment.nalu_header@.subrange(0, 2) =~= seq![
                (payload@[0] & 0x81) | ((payload@[2] & 0x3f) << 1),
                payload@[1],
            ]);
            Ok(fragment)
        },
    }
}

fn parse_h26x_payload<'a>(
    codec: H26x,
    payload: &'a [u8],
    marker: bool,
    has_partial_frame: bool,
) -> (parsed: Result<ParsedRtpPayload<'a>, RtpError>)
    ensures
        match read_h26x(codec, payload@, marker, has_partial_frame) {
            Ok((boundary, body)) => parsed matches Ok(parsed) && parsed.boundary == boundary
                && parsed.depacketized.body() == body && parsed.wf(),
            Err(error) => parsed == Err::<ParsedRtpPayload<'a>, RtpError>(error),
        },
{
    if payload.len() < codec.exec_nal_header_len() {
        return Err(
            match codec {
                H26x::H264 => error_of(Codec::H264, "empty H264 payload"),
                H26x::H265 => error_of(Codec::H265, "truncated H265 payload header"),
            },
        );
    }
    let nalu_type = codec.exec_nal_type(payload[0]);
    let boundary = RtpPayloadBoundary {
        starts_frame: !has_partial_frame,
        completes_frame: marker,
    };
    if codec.is_single_nalu_type(nalu_type) {
        return Ok(
            ParsedRtpPayload { boundary, depacketized: DepacketizedPayload::H26xNalu(payload) },
        );
    }
    if codec.is_aggregation_nalu_type(nalu_type) {
        return Ok(
            ParsedRtpPayload {
                boundary,
                depacketized: DepacketizedPayload::H26xAggregation {
                    codec: codec.as_codec(),
                    payload: from_to_end(payload, codec.exec_nal_header_len()),
                },
            },
        );
    }
    if codec.is_fragment_nalu_type(nalu_type) {
        return match parse_fragment_payload(codec, payload) {
            Ok(fragment) => Ok(
                ParsedRtpPayload {
                    boundary: RtpPayloadBoundary {
                        starts_frame: fragment.starts_fragment,
                        completes_frame: marker && fragment.completes_fragment,
                    },
                    depacketized: DepacketizedPayload::H26xFragment(fragment),
                },
            ),
            Err(error) => Err(error),
        };
    }
    Err(
        match codec {
            H26x::H264 => error_of(Codec::H264, "unsupported H264 RTP NAL unit type"),
            H26x::H265 => error_of(Codec::H265, "unsupported H265 RTP NAL unit type"),
        },
    )
}

fn append_annex_b_nalu(nalu: &[u8], frame: &mut Vec<u8>)
    ensures
        final(frame)@ == old(frame)@ + (long_start_code() + nalu@),
{
    push_long_start_code(frame);
    push_range(frame, nalu, 0, nalu.len());
    assert(frame@ =~= old(frame)@ + (long_start_code() + nalu@));
}

fn push_long_start_code(frame: &mut Vec<u8>)
    ensures
        final(frame)@ == old(frame)@ + long_start_code(),
{
    frame.push(0);
    frame.push(0);
    frame.push(0);
    frame.push(1);
    assert(frame@ =~= old(frame)@ + long_start_code());
}

fn append_h26x_aggregation(codec: Codec, payload: &[u8], frame: &mut Vec<u8>) -> (result: Result<
    (),
    RtpError,
>)
    ensures
        ({
            let adds = aggregation_bytes(codec, payload@, 0);
            &&& final(frame)@ == old(frame)@ + adds.0
            &&& result == (match adds.1 {
                Some(error) => Err::<(), RtpError>(error),
                None => Ok::<(), RtpError>(()),
            })
        }),
{
    let len = payload.len();
    let mut at: usize = 0;
    let ghost whole = aggregation_bytes(codec, payload@, 0);
    while at < len
        invariant
            len == payload@.len(),
            at <= len,
            whole == aggregation_bytes(codec, payload@, 0),
            old(frame)@ + whole.0 == frame@ + aggregation_bytes(codec, payload@, at as int).0,
            whole.1 == aggregation_bytes(codec, payload@, at as int).1,
        decreases len - at,
    {
        let ghost before = frame@;
        if len - at < 2 {
            assert(frame@ =~= old(frame)@ + whole.0);
            return Err(error_of(codec, "truncated H26x aggregation length"));
        }
        let nalu_len: usize = read_be16(payload[at], payload[at + 1]) as usize;
        let start: usize = at + 2;
        if len - start < nalu_len {
            assert(frame@ =~= old(frame)@ + whole.0);
            return Err(error_of(codec, "truncated H26x aggregation NAL unit"));
        }
        let end: usize = start + nalu_len;
        append_annex_b_nalu(vstd::slice::slice_subrange(payload, start, end), frame);
        assert(before + aggregation_bytes(codec, payload@, at as int).0 =~= frame@
            + aggregation_bytes(codec, payload@, end as int).0);
        at = end;
    }
    assert(frame@ =~= old(frame)@ + whole.0);
    Ok(())
}

fn append_av1_payload(w: u8, payload: &[u8], frame: &mut Vec<u8>) -> (result: Result<(), RtpError>)
    requires
        w <= 3,
    ensures
        ({
            let adds = (PayloadBody::Av1 { elements: w, data: payload@ }).adds();
            &&& final(frame)@ == old(frame)@ + adds.0
            &&& result == (match adds.1 {
                Some(error) => Err::<(), RtpError>(error),
                None => Ok::<(), RtpError>(()),
            })
        }),
{
    let len = payload.len();
    if w == 1 {
        push_range(frame, payload, 0, len);
        assert(frame@ =~= old(frame)@ + payload@);
        return Ok(());
    }
    let mut at: usize = 0;
    let mut elements: u8 = 0;
    let ghost mut seen: nat = 0;
    let ghost whole = element_bytes(w, payload@, 0, 0);
    while at < len
        invariant
            len == payload@.len(),
            at <= len,
            w <= 3,
            w != 0 ==> seen < w,
            seen <= 255 ==> elements == seen,
            seen > 255 ==> elements == 255,
            whole == element_bytes(w, payload@, 0, 0),
            old(frame)@ + whole.0 == frame@ + element_bytes(w, payload@, at as int, seen).0,
            whole.1 == element_bytes(w, payload@, at as int, seen).1,
        decreases len - at,
    {
        let ghost before = frame@;
        elements = elements.saturating_add(1);
        if w != 0 && elements == w {
            push_range(frame, payload, at, len);
            assert(frame@ =~= old(frame)@ + whole.0);
            return Ok(());
        }
        let decoded = match DecodedUleb128::read(from_to_end(payload, at)) {
            Some(decoded) => decoded,
            None => {
                assert(frame@ =~= old(frame)@ + whole.0);
                return Err(error_of(Codec::Av1, "invalid AV1 OBU length"));
            },
        };
        if decoded.value > usize::MAX as u64 {
            assert(frame@ =~= old(frame)@ + whole.0);
            return Err(error_of(Codec::Av1, "oversized AV1 OBU length"));
        }
        let element_len: usize = decoded.value as usize;
        let start: usize = at + decoded.encoded_len;
        if len - start < element_len {
            assert(frame@ =~= old(frame)@ + whole.0);
            return Err(error_of(Codec::Av1, "truncated AV1 OBU element"));
        }
        let end: usize = start + element_len;
        push_range(frame, payload, start, end);
        assert(before + element_bytes(w, payload@, at as int, seen).0 =~= frame@ + element_bytes(
            w,
            payload@,
            end as int,
            seen + 1,
        ).0);
        at = end;
        proof {
            seen = seen + 1;
        }
    }
    assert(frame@ =~= old(frame)@ + whole.0);
    Ok(())
}

impl<'a> ParsedRtpPayload<'a> {
    pub closed spec fn body(self) -> PayloadBody {
        self.depacketized.body()
    }

    pub closed spec fn bounds(self) -> RtpPayloadBoundary {
        self.boundary
    }

    #[verifier::type_invariant]
    spec fn wf(self) -> bool {
        match self.depacketized {
            DepacketizedPayload::H26xFragment(fragment) => fragment.nalu_header_len <= 2,
            DepacketizedPayload::Av1 { w, .. } => w <= 3,
            _ => true,
        }
    }

    /// Reads a payload; `has_partial_frame` says that a frame is under way.
    pub fn parse(
        codec: Codec,
        payload: &'a [u8],
        marker: bool,
        has_partial_frame: bool,
    ) -> (parsed: Result<Self, RtpError>)
        ensures
            match read_payload(codec, payload@, marker, has_partial_frame) {
                Ok((boundary, body)) => parsed matches Ok(parsed) && parsed.bounds() == boundary
                    && parsed.body() == body,
                Err(error) => parsed == Err::<Self, RtpError>(error),
            },
    {
        match codec {
            Codec::Opus => Ok(
                ParsedRtpPayload {
                    boundary: RtpPayloadBoundary { starts_frame: true, completes_frame: true },
                    depacketized: DepacketizedPayload::Raw(payload),
                },
            ),
            Codec::Vp8 => match vp8_descriptor(payload) {
                Ok((len, starts_frame)) => Ok(
                    ParsedRtpPayload {
                        boundary: RtpPayloadBoundary {
                            starts_frame,
                            completes_frame: marker && payload.len() > len,
                        },
                        depacketized: DepacketizedPayload::Raw(from_to_end(payload, len)),
                    },
                ),
                Err(error) => Err(error),
            },
            Codec::Vp9 => match exec_vp9_descriptor_len(payload) {
                Ok(len) => Ok(
                    ParsedRtpPayload {
                        boundary: RtpPayloadBoundary {
                            starts_frame: payload[0] & 0x08 != 0,
                            completes_frame: marker || payload[0] & 0x04 != 0,
                        },
                        depacketized: DepacketizedPayload::Raw(from_to_end(payload, len)),
                    },
                ),
                Err(error) => Err(error),
            },
            Codec::H264 => parse_h26x_payload(H26x::H264, payload, marker, has_partial_frame),
            Codec::H265 => parse_h26x_payload(H26x::H265, payload, marker, has_partial_frame),
            Codec::Av1 => {
                if payload.len() == 0 {
                    return Err(error_of(Codec::Av1, "empty AV1 payload"));
                }
                let header = payload[0];
                assert((header >> 4) & 0x03 <= 3) by (bit_vector);
                Ok(
                    ParsedRtpPayload {
                        boundary: RtpPayloadBoundary {
                            starts_frame: !has_partial_frame && header & 0x80 == 0,
                            completes_frame: marker,
                        },
                        depacketized: DepacketizedPayload::Av1 {
                            w: (header >> 4) & 0x03,
                            payload: from_to_end(payload, 1),
                        },
                    },
                )
            },
        }
    }

    pub fn boundary(&self) -> (boundary: RtpPayloadBoundary)
        ensures
            boundary == self.bounds(),
    {
        self.boundary
    }

    /// Appends what the payload adds to its frame. Where the payload is malformed,
    /// what came before the fault has been appended.
    pub fn append_depacketized(&self, frame: &mut Vec<u8>) -> (result: Result<(), RtpError>)
        ensures
            final(frame)@ == old(frame)@ + self.body().adds().0,
            result == (match self.body().adds().1 {
                Some(error) => Err::<(), RtpError>(error),
                None => Ok::<(), RtpError>(()),
            }),
    {
        proof {
            use_type_invariant(self);
        }
        match self.depacketized {
            DepacketizedPayload::Raw(payload) => {
                push_range(frame, payload, 0, payload.len());
                assert(frame@ =~= old(frame)@ + payload@);
                Ok(())
            },
            DepacketizedPayload::H26xNalu(nalu) => {
                append_annex_b_nalu(nalu, frame);
                Ok(())
            },
            DepacketizedPayload::H26xAggregation { codec, payload } => {
                append_h26x_aggregation(codec, payload, frame)
            },
            DepacketizedPayload::H26xFragment(fragment) => {
                if fragment.starts_fragment {
                    push_long_start_code(frame);
                    push_range(
                        frame,
                        fragment.nalu_header.as_slice(),
                        0,
                        fragment.nalu_header_len,
                    );
                }
                push_range(
                    frame,
                    fragment.fragment_payload,
                    0,
                    fragment.fragment_payload.len(),
                );
                assert(frame@ =~= old(frame)@ + self.body().adds().0);
                Ok(())
            },
            DepacketizedPayload::Av1 { w, payload } => append_av1_payload(w, payload, frame),
        }
    }
}

} // verus!
