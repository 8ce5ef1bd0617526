//! What holds between cutting a frame up and putting it together.

use super::depacketize::{
    fragment_of, long_start_code, read_payload, vp8_descriptor_of, vp9_descriptor_len,
    vp9_layers_end, PayloadBody, RtpPayloadBoundary,
};
use super::h26x::{fragment_flags, H26x};
use super::{
    aggregation_header, fragmentation_units_from, fragments_from, frame_plan, nalu_chunks,
    nalus_chunks, obu_chunks_from, obu_end, obus_plan_from, smaller, FragmentedPayloadHeader,
    RtpChunk,
};
use crate::annex_b::{
    lemma_next_start_code_is, lemma_no_start_code, nalu_end, nalus, nalus_from, start_code_at,
};
use crate::codec::Codec;
use vstd::prelude::*;

verus! {

/// What a receiver has after `chunks`, one after the other: the bytes of the frame that
/// is under way or was last completed, and whether one is under way. It starts from
/// `frame` and `partial`; a payload that starts a frame drops what was there. Nothing
/// where a payload cannot be read, where it goes on with a frame that nothing started,
/// or where it completes a frame before the last payload.
pub open spec fn reassembled(
    codec: Codec,
    chunks: Seq<RtpChunk>,
    frame: Seq<u8>,
    partial: bool,
) -> Option<(Seq<u8>, bool)>
    decreases chunks.len(),
{
    if chunks.len() == 0 {
        Some((frame, partial))
    } else {
        match read_payload(codec, chunks[0].payload, chunks[0].marker, partial) {
            Err(_) => None,
            Ok((boundary, body)) => {
                let base = if boundary.starts_frame {
                    Seq::<u8>::empty()
                } else {
                    frame
                };
                if body.adds().1 is Some {
                    None
                } else if !partial && !boundary.starts_frame {
                    None
                } else if boundary.completes_frame && chunks.len() > 1 {
                    None
                } else {
                    reassembled(
                        codec,
                        chunks.drop_first(),
                        base + body.adds().0,
                        !boundary.completes_frame,
                    )
                }
            },
        }
    }
}

/// A payload that can be read takes the receiver one step on.
proof fn lemma_step(
    codec: Codec,
    chunks: Seq<RtpChunk>,
    frame: Seq<u8>,
    partial: bool,
    boundary: RtpPayloadBoundary,
    body: PayloadBody,
)
    requires
        chunks.len() > 0,
        read_payload(codec, chunks[0].payload, chunks[0].marker, partial) == Ok::<
            (RtpPayloadBoundary, PayloadBody),
            crate::errors::RtpError,
        >((boundary, body)),
        body.adds().1 is None,
        partial || boundary.starts_frame,
        boundary.completes_frame ==> chunks.len() == 1,
    ensures
        reassembled(codec, chunks, frame, partial) == reassembled(
            codec,
            chunks.drop_first(),
            (if boundary.starts_frame {
                Seq::<u8>::empty()
            } else {
                frame
            }) + body.adds().0,
            !boundary.completes_frame,
        ),
{
}

/// NAL units as a byte stream, each behind a four-byte start code.
pub open spec fn annex_b(units: Seq<Seq<u8>>) -> Seq<u8>
    decreases units.len(),
{
    if units.len() == 0 {
        seq![]
    } else {
        long_start_code() + units[0] + annex_b(units.drop_first())
    }
}

/// Whether a receiver takes the NAL unit, alone in a payload, for a NAL unit.
pub open spec fn plain_unit(codec: H26x, unit: Seq<u8>) -> bool {
    &&& unit.len() >= codec.nal_header_len()
    &&& codec.is_single(codec.nal_type(unit[0]))
}

/// The frames that come back from the other end as they went in: the NAL units that
/// fit in a packet are plain ones, and only the first unit may need several packets,
/// since the first fragment of a later one would start a new frame.
pub open spec fn sendable_units(codec: H26x, units: Seq<Seq<u8>>) -> bool {
    &&& forall|i: int|
        0 <= i < units.len() && (#[trigger] units[i]).len() <= 1_200 ==> plain_unit(codec, units[i])
    &&& forall|i: int| 1 <= i < units.len() ==> (#[trigger] units[i]).len() <= 1_200
}

proof fn lemma_small_headers()
    ensures
        0x10u8 & 0x80 == 0,
        0x10u8 & 0x10 != 0,
        0x10u8 & 0x0f == 0,
        0u8 & 0x80 == 0,
        0u8 & 0x10 == 0,
        forall|flags: u8|
            flags == 0 || flags == 4 || flags == 8 || flags == 12 ==> #[trigger] (flags & 0x80) == 0
                && flags & 0x20 == 0 && flags & 0x10 == 0 && flags & 0x02 == 0,
        0u8 & 0x08 == 0,
        0u8 & 0x04 == 0,
        4u8 & 0x08 == 0,
        4u8 & 0x04 != 0,
        8u8 & 0x08 != 0,
        8u8 & 0x04 == 0,
        12u8 & 0x08 != 0,
        12u8 & 0x04 != 0,
{
    assert(0x10u8 & 0x80 == 0 && 0x10u8 & 0x10 != 0 && 0x10u8 & 0x0f == 0 && 0u8 & 0x80 == 0
        && 0u8 & 0x10 == 0 && 0u8 & 0x08 == 0 && 0u8 & 0x04 == 0 && 4u8 & 0x08 == 0 && 4u8 & 0x04
        != 0 && 8u8 & 0x08 != 0 && 8u8 & 0x04 == 0 && 12u8 & 0x08 != 0 && 12u8 & 0x04 != 0)
        by (bit_vector);
    assert forall|flags: u8| flags == 0 || flags == 4 || flags == 8 || flags == 12 implies
        #[trigger] (flags & 0x80) == 0 && flags & 0x20 == 0 && flags & 0x10 == 0 && flags & 0x02
        == 0 by {
        assert((flags == 0 || flags == 4 || flags == 8 || flags == 12) ==> (flags & 0x80 == 0
            && flags & 0x20 == 0 && flags & 0x10 == 0 && flags & 0x02 == 0)) by (bit_vector);
    }
}

pub open spec fn fragmented_codec(header: FragmentedPayloadHeader) -> Codec {
    match header {
        FragmentedPayloadHeader::Vp8 => Codec::Vp8,
        FragmentedPayloadHeader::Vp9 => Codec::Vp9,
    }
}

proof fn lemma_read_fragment(
    header: FragmentedPayloadHeader,
    data: Seq<u8>,
    first: bool,
    last: bool,
    partial: bool,
)
    requires
        data.len() > 0,
    ensures
        read_payload(
            fragmented_codec(header),
            seq![header.byte(first, last)] + data,
            last,
            partial,
        ) == Ok::<(RtpPayloadBoundary, PayloadBody), crate::errors::RtpError>(
            (
                RtpPayloadBoundary { starts_frame: first, completes_frame: last },
                PayloadBody::Raw(data),
            ),
        ),
{
    lemma_small_headers();
    let payload = seq![header.byte(first, last)] + data;
    assert(payload[0] == header.byte(first, last));
    assert(payload.subrange(1, payload.len() as int) =~= data);
    match header {
        FragmentedPayloadHeader::Vp8 => {
            assert(vp8_descriptor_of(payload) == Ok::<(int, bool), crate::errors::RtpError>(
                (1, first),
            ));
        },
        FragmentedPayloadHeader::Vp9 => {
            let flags = payload[0];
            assert(flags & 0x80 == 0);
            assert(vp9_layers_end(payload) == Ok::<int, crate::errors::RtpError>(1));
            assert(vp9_descriptor_len(payload) == Ok::<int, crate::errors::RtpError>(1));
        },
    }
}

proof fn lemma_fragments_reassemble(
    header: FragmentedPayloadHeader,
    frame: Seq<u8>,
    offset: int,
    before: Seq<u8>,
    partial: bool,
)
    requires
        0 <= offset < frame.len(),
        offset > 0 ==> partial && before == frame.subrange(0, offset),
    ensures
        reassembled(
            fragmented_codec(header),
            fragments_from(header, frame, offset),
            before,
            partial,
        ) == Some((frame, false)),
    decreases frame.len() - offset,
{
    let codec = fragmented_codec(header);
    let end = smaller(offset + 1_199, frame.len() as int);
    let chunks = fragments_from(header, frame, offset);
    let data = frame.subrange(offset, end);
    lemma_read_fragment(header, data, offset == 0, end == frame.len(), partial);
    assert(end == frame.len() ==> fragments_from(header, frame, end).len() == 0);
    lemma_step(
        codec,
        chunks,
        before,
        partial,
        RtpPayloadBoundary { starts_frame: offset == 0, completes_frame: end == frame.len() },
        PayloadBody::Raw(data),
    );
    assert(chunks.drop_first() =~= fragments_from(header, frame, end));
    let base = if offset == 0 {
        Seq::<u8>::empty()
    } else {
        before
    };
    assert(base + data =~= frame.subrange(0, end));
    if end < frame.len() {
        lemma_fragments_reassemble(header, frame, end, frame.subrange(0, end), true);
    } else {
        assert(frame.subrange(0, end) =~= frame);
        assert(fragments_from(header, frame, end) =~= seq![]);
    }
}

proof fn lemma_read_element(first: bool, last: bool, data: Seq<u8>, marker: bool, partial: bool)
    ensures
        read_payload(
            Codec::Av1,
            seq![aggregation_header(first, last)] + data,
            marker,
            partial,
        ) == Ok::<(RtpPayloadBoundary, PayloadBody), crate::errors::RtpError>(
            (
                RtpPayloadBoundary { starts_frame: !partial && first, completes_frame: marker },
                PayloadBody::Av1 { elements: 1, data },
            ),
        ),
{
    let header = aggregation_header(first, last);
    let payload = seq![header] + data;
    assert(payload[0] == header);
    assert(payload.subrange(1, payload.len() as int) =~= data);
    assert((header == 0x10 || header == 0x50) ==> header & 0x80 == 0) by (bit_vector);
    assert((header == 0x90 || header == 0xd0) ==> header & 0x80 != 0) by (bit_vector);
    assert((header == 0x10 || header == 0x50 || header == 0x90 || header == 0xd0) ==> (header >> 4)
        & 0x03 == 1) by (bit_vector);
}

proof fn lemma_obu_reassembles(
    frame: Seq<u8>,
    start: int,
    end: int,
    offset: int,
    tail: Seq<RtpChunk>,
    before: Seq<u8>,
)
    requires
        0 <= start <= offset <= end <= frame.len(),
        offset > 0 ==> before == frame.subrange(0, offset),
        start < end,
        end == frame.len() ==> tail.len() == 0,
    ensures
        reassembled(
            Codec::Av1,
            obu_chunks_from(frame, start, end, offset) + tail,
            before,
            0 < offset < frame.len(),
        ) == reassembled(Codec::Av1, tail, frame.subrange(0, end), end < frame.len()),
    decreases end - offset,
{
    let partial = 0 < offset < frame.len();
    let these = obu_chunks_from(frame, start, end, offset);
    if offset == end {
        assert(these + tail =~= tail);
    } else {
        let stop = smaller(offset + 1_199, end);
        let data = frame.subrange(offset, stop);
        let marker = end == frame.len() && stop == end;
        lemma_read_element(offset == start, stop == end, data, marker, partial);
        let chunks = these + tail;
        assert(chunks[0] == these[0]);
        assert(chunks.drop_first() =~= obu_chunks_from(frame, start, end, stop) + tail);
        let base = if !partial && offset == start {
            Seq::<u8>::empty()
        } else {
            before
        };
        assert(base + data =~= frame.subrange(0, stop));
        assert(stop == end ==> obu_chunks_from(frame, start, end, stop).len() == 0);
        lemma_step(
            Codec::Av1,
            chunks,
            before,
            partial,
            RtpPayloadBoundary {
                starts_frame: !partial && offset == start,
                completes_frame: marker,
            },
            PayloadBody::Av1 { elements: 1, data },
        );
        lemma_obu_reassembles(frame, start, end, stop, tail, frame.subrange(0, stop));
    }
}

proof fn lemma_obus_reassemble(frame: Seq<u8>, start: int, before: Seq<u8>)
    requires
        0 <= start <= frame.len(),
        frame.len() > 0,
        obus_plan_from(frame, start).failure is None,
        start > 0 ==> before == frame.subrange(0, start),
    ensures
        reassembled(
            Codec::Av1,
            obus_plan_from(frame, start).chunks,
            before,
            0 < start < frame.len(),
        ) == Some((frame, false)),
    decreases frame.len() - start,
{
    if start == frame.len() {
        assert(frame.subrange(0, start) =~= frame);
    } else {
        let end = obu_end(frame, start).unwrap();
        let rest = obus_plan_from(frame, end);
        lemma_obu_reassembles(frame, start, end, start, rest.chunks, before);
        lemma_obus_reassemble(frame, end, frame.subrange(0, end));
    }
}

proof fn lemma_fragment_header(codec: H26x, nalu: Seq<u8>, first: bool, last: bool, data: Seq<u8>)
    requires
        nalu.len() >= codec.nal_header_len(),
        data.len() > 0,
    ensures
        ({
            let payload = codec.fragment_header(nalu, first, last) + data;
            &&& codec.is_fragment(codec.nal_type(payload[0]))
            &&& !codec.is_single(codec.nal_type(payload[0]))
            &&& !codec.is_aggregation(codec.nal_type(payload[0]))
            &&& fragment_of(codec, payload) == Ok::<PayloadBody, crate::errors::RtpError>(
                PayloadBody::Fragment {
                    starts: first,
                    completes: last,
                    header: nalu.subrange(0, codec.nal_header_len()),
                    data,
                },
            )
        }),
{
    let payload = codec.fragment_header(nalu, first, last) + data;
    let header = nalu[0];
    let flags = fragment_flags(first, last);
    match codec {
        H26x::H264 => {
            assert(payload.subrange(2, payload.len() as int) =~= data);
            let b0 = (header & 0xe0) | 28u8;
            let b1 = flags | (header & 0x1f);
            assert(b0 & 0x1f == 28 && (flags == 0xc0 || flags == 0x80 || flags == 0x40 || flags
                == 0 ==> (b1 & 0x80 == flags & 0x80) && (b1 & 0x40 == flags & 0x40) && ((b0 & 0xe0)
                | (b1 & 0x1f)) == header)) by (bit_vector)
                requires
                    b0 == (header & 0xe0) | 28u8,
                    b1 == flags | (header & 0x1f),
            ;
            assert(nalu.subrange(0, 1) =~= seq![header]);
        },
        H26x::H265 => {
            assert(payload.subrange(3, payload.len() as int) =~= data);
            let b0 = (header & 0x81) | 98u8;
            let b2 = flags | ((header & 0x7e) >> 1);
            assert((b0 >> 1) & 0x3f == 49 && (flags == 0xc0 || flags == 0x80 || flags == 0x40
                || flags == 0 ==> (b2 & 0x80 == flags & 0x80) && (b2 & 0x40 == flags & 0x40) && ((b0
                & 0x81) | ((b2 & 0x3f) << 1)) == header)) by (bit_vector)
                requires
                    b0 == (header & 0x81) | 98u8,
                    b2 == flags | ((header & 0x7e) >> 1),
            ;
            assert(nalu.subrange(0, 2) =~= seq![header, nalu[1]]);
        },
    }
    assert(0xc0u8 & 0x80 != 0 && 0xc0u8 & 0x40 != 0 && 0x80u8 & 0x80 != 0 && 0x80u8 & 0x40 == 0
        && 0x40u8 & 0x80 == 0 && 0x40u8 & 0x40 != 0 && 0u8 & 0x80 == 0 && 0u8 & 0x40 == 0)
        by (bit_vector);
}

proof fn lemma_read_unit_fragment(
    codec: H26x,
    nalu: Seq<u8>,
    first: bool,
    last: bool,
    data: Seq<u8>,
    marker: bool,
    partial: bool,
)
    requires
        nalu.len() >= codec.nal_header_len(),
        data.len() > 0,
    ensures
        read_payload(
            codec.codec(),
            codec.fragment_header(nalu, first, last) + data,
            marker,
            partial,
        ) == Ok::<(RtpPayloadBoundary, PayloadBody), crate::errors::RtpError>(
            (
                RtpPayloadBoundary { starts_frame: first, completes_frame: marker && last },
                PayloadBody::Fragment {
                    starts: first,
                    completes: last,
                    header: nalu.subrange(0, codec.nal_header_len()),
                    data,
                },
            ),
        ),
{
    lemma_fragment_header(codec, nalu, first, last, data);
}

proof fn lemma_unit_prefix_grows(nalu: Seq<u8>, from: int, to: int)
    requires
        0 <= from <= to <= nalu.len(),
    ensures
        long_start_code() + nalu.subrange(0, from) + nalu.subrange(from, to) == long_start_code()
            + nalu.subrange(0, to),
        Seq::<u8>::empty() + (long_start_code() + nalu.subrange(0, from) + nalu.subrange(from, to))
            == long_start_code() + nalu.subrange(0, to),
{
    assert(nalu.subrange(0, from) + nalu.subrange(from, to) =~= nalu.subrange(0, to));
    assert(long_start_code() + nalu.subrange(0, from) + nalu.subrange(from, to)
        =~= long_start_code() + (nalu.subrange(0, from) + nalu.subrange(from, to)));
    assert(Seq::<u8>::empty() + (long_start_code() + nalu.subrange(0, to)) =~= long_start_code()
        + nalu.subrange(0, to));
}

/// One fragmentation unit, taken.
proof fn lemma_unit_fragment_step(
    codec: H26x,
    nalu: Seq<u8>,
    offset: int,
    end: int,
    last_nalu: bool,
    tail: Seq<RtpChunk>,
    before: Seq<u8>,
    partial: bool,
)
    requires
        nalu.len() > 1_200,
        0 <= offset < nalu.len() - codec.nal_header_len(),
        end == smaller(
            offset + 1_200 - codec.fragment_header_len(),
            nalu.len() - codec.nal_header_len(),
        ),
        offset > 0 ==> partial && before == long_start_code() + nalu.subrange(
            0,
            codec.nal_header_len() + offset,
        ),
        last_nalu ==> tail.len() == 0,
    ensures
        reassembled(
            codec.codec(),
            fragmentation_units_from(codec, nalu, offset, last_nalu) + tail,
            before,
            partial,
        ) == reassembled(
            codec.codec(),
            fragmentation_units_from(codec, nalu, end, last_nalu) + tail,
            long_start_code() + nalu.subrange(0, codec.nal_header_len() + end),
            !(last_nalu && end == nalu.len() - codec.nal_header_len()),
        ),
{
    let header_len = codec.nal_header_len();
    let first = offset == 0;
    let last = end == nalu.len() - header_len;
    let data = nalu.subrange(header_len + offset, header_len + end);
    let header = nalu.subrange(0, header_len);
    let these = fragmentation_units_from(codec, nalu, offset, last_nalu);
    let following = fragmentation_units_from(codec, nalu, end, last_nalu);
    let chunk = RtpChunk {
        payload: codec.fragment_header(nalu, first, last) + data,
        marker: last_nalu && last,
    };
    let chunks = these + tail;
    assert(these == seq![chunk] + following);
    assert(chunks[0] == chunk);
    assert(chunks.drop_first() =~= following + tail);
    assert(last ==> following.len() == 0);
    lemma_read_unit_fragment(codec, nalu, first, last, data, last_nalu && last, partial);
    let body = PayloadBody::Fragment { starts: first, completes: last, header, data };
    lemma_step(
        codec.codec(),
        chunks,
        before,
        partial,
        RtpPayloadBoundary { starts_frame: first, completes_frame: last_nalu && last },
        body,
    );
    lemma_unit_prefix_grows(nalu, header_len + offset, header_len + end);
}

proof fn lemma_unit_fragments_reassemble(
    codec: H26x,
    nalu: Seq<u8>,
    offset: int,
    last_nalu: bool,
    tail: Seq<RtpChunk>,
    before: Seq<u8>,
    partial: bool,
)
    requires
        nalu.len() > 1_200,
        0 <= offset < nalu.len() - codec.nal_header_len(),
        offset > 0 ==> partial && before == long_start_code() + nalu.subrange(
            0,
            codec.nal_header_len() + offset,
        ),
        last_nalu ==> tail.len() == 0,
    ensures
        reassembled(
            codec.codec(),
            fragmentation_units_from(codec, nalu, offset, last_nalu) + tail,
            before,
            partial,
        ) == reassembled(codec.codec(), tail, long_start_code() + nalu, !last_nalu),
    decreases nalu.len() - offset,
{
    let header_len = codec.nal_header_len();
    let body_len = nalu.len() - header_len;
    let end = smaller(offset + 1_200 - codec.fragment_header_len(), body_len);
    lemma_unit_fragment_step(codec, nalu, offset, end, last_nalu, tail, before, partial);
    if end == body_len {
        assert(nalu.subrange(0, header_len + end) =~= nalu);
        assert(fragmentation_units_from(codec, nalu, end, last_nalu) + tail =~= tail);
    } else {
        lemma_unit_fragments_reassemble(
            codec,
            nalu,
            end,
            last_nalu,
            tail,
            long_start_code() + nalu.subrange(0, header_len + end),
            true,
        );
    }
}

proof fn lemma_small_units_reassemble(
    codec: H26x,
    units: Seq<Seq<u8>>,
    before: Seq<u8>,
    partial: bool,
)
    requires
        forall|i: int| 0 <= i < units.len() ==> (#[trigger] units[i]).len() <= 1_200,
        forall|i: int| 0 <= i < units.len() ==> plain_unit(codec, #[trigger] units[i]),
        units.len() == 0 ==> !partial,
    ensures
        reassembled(codec.codec(), nalus_chunks(codec, units), before, partial) == Some(
            (
                if partial || units.len() == 0 {
                    before + annex_b(units)
                } else {
                    annex_b(units)
                },
                false,
            ),
        ),
    decreases units.len(),
{
    if units.len() == 0 {
        assert(before + annex_b(units) =~= before);
    } else {
        let unit = units[0];
        let rest = units.drop_first();
        let chunks = nalus_chunks(codec, units);
        assert(plain_unit(codec, units[0]));
        assert(chunks[0] == (RtpChunk { payload: unit, marker: units.len() == 1 }));
        assert(chunks.drop_first() =~= nalus_chunks(codec, rest));
        let base = if partial {
            before
        } else {
            Seq::<u8>::empty()
        };
        let after = base + (long_start_code() + unit);
        lemma_small_units_reassemble(codec, rest, after, units.len() != 1);
        assert(after + annex_b(rest) =~= base + annex_b(units));
        assert(Seq::<u8>::empty() + annex_b(units) =~= annex_b(units));
    }
}

/// What a packetizer makes of an H.264 or H.265 frame comes back at the other end as
/// the frame's NAL units, each behind a four-byte start code: whatever the receiver
/// had before, and with no frame left under way.
pub proof fn law_nal_units_round_trip(codec: H26x, frame: Seq<u8>, before: Seq<u8>)
    requires
        nalus(frame).len() > 0,
        sendable_units(codec, nalus(frame)),
    ensures
        reassembled(
            codec.codec(),
            frame_plan(codec.codec(), frame).chunks,
            before,
            false,
        ) == Some((annex_b(nalus(frame)), false)),
{
    let units = nalus(frame);
    let rest = units.drop_first();
    assert forall|i: int| 0 <= i < rest.len() implies (#[trigger] rest[i]).len() <= 1_200
        && plain_unit(codec, rest[i]) by {
        assert(rest[i] == units[i + 1]);
    }
    if units[0].len() <= 1_200 {
        assert forall|i: int| 0 <= i < units.len() implies (#[trigger] units[i]).len() <= 1_200
            && plain_unit(codec, units[i]) by {
            if i > 0 {
                assert(units[i] == rest[i - 1]);
            }
        }
        lemma_small_units_reassemble(codec, units, before, false);
    } else {
        let tail = nalus_chunks(codec, rest);
        lemma_unit_fragments_reassemble(
            codec,
            units[0],
            0,
            units.len() == 1,
            tail,
            before,
            false,
        );
        let after = long_start_code() + units[0];
        lemma_small_units_reassemble(codec, rest, after, units.len() != 1);
        assert(after + annex_b(rest) =~= annex_b(units));
        assert(annex_b(units) =~= after + annex_b(rest));
    }
}

/// Every frame of the other codecs that a packetizer cuts up to the end comes back as
/// it was: whatever the receiver had before, and with no frame left under way.
pub proof fn law_frames_round_trip(codec: Codec, frame: Seq<u8>, before: Seq<u8>)
    requires
        frame.len() > 0,
        codec != Codec::H264 && codec != Codec::H265,
        frame_plan(codec, frame).failure is None,
    ensures
        reassembled(codec, frame_plan(codec, frame).chunks, before, false) == Some((frame, false)),
{
    match codec {
        Codec::Opus => {
            let chunks = frame_plan(codec, frame).chunks;
            lemma_step(
                codec,
                chunks,
                before,
                false,
                RtpPayloadBoundary { starts_frame: true, completes_frame: true },
                PayloadBody::Raw(frame),
            );
            assert(chunks.drop_first() =~= seq![]);
            assert(Seq::<u8>::empty() + frame =~= frame);
        },
        Codec::Vp8 => {
            lemma_fragments_reassemble(FragmentedPayloadHeader::Vp8, frame, 0, before, false);
        },
        Codec::Vp9 => {
            lemma_fragments_reassemble(FragmentedPayloadHeader::Vp9, frame, 0, before, false);
        },
        Codec::Av1 => {
            lemma_obus_reassemble(frame, 0, before);
        },
        _ => {},
    }
}

proof fn lemma_fragments_fit(header: FragmentedPayloadHeader, frame: Seq<u8>, offset: int)
    ensures
        forall|i: int|
            0 <= i < fragments_from(header, frame, offset).len() ==> 0 < (
            #[trigger] fragments_from(header, frame, offset)[i]).payload.len() <= 1_200,
    decreases frame.len() - offset,
{
    if 0 <= offset < frame.len() {
        let end = smaller(offset + 1_199, frame.len() as int);
        lemma_fragments_fit(header, frame, end);
        let rest = fragments_from(header, frame, end);
        let all = fragments_from(header, frame, offset);
        assert forall|i: int| 0 <= i < all.len() implies 0 < (#[trigger] all[i]).payload.len()
            <= 1_200 by {
            if i > 0 {
                assert(all[i] == rest[i - 1]);
            }
        }
    }
}

proof fn lemma_units_fit(codec: H26x, nalu: Seq<u8>, offset: int, last_nalu: bool)
    ensures
        forall|i: int|
            0 <= i < fragmentation_units_from(codec, nalu, offset, last_nalu).len() ==> 0 < (
            #[trigger] fragmentation_units_from(
                codec,
                nalu,
                offset,
                last_nalu,
            )[i]).payload.len() <= 1_200,
    decreases nalu.len() - offset,
{
    let body_len = nalu.len() - codec.nal_header_len();
    if 0 <= offset < body_len {
        let end = smaller(offset + 1_200 - codec.fragment_header_len(), body_len);
        lemma_units_fit(codec, nalu, end, last_nalu);
        let rest = fragmentation_units_from(codec, nalu, end, last_nalu);
        let all = fragmentation_units_from(codec, nalu, offset, last_nalu);
        assert forall|i: int| 0 <= i < all.len() implies 0 < (#[trigger] all[i]).payload.len()
            <= 1_200 by {
            if i > 0 {
                assert(all[i] == rest[i - 1]);
            }
        }
    }
}

proof fn lemma_nalus_fit(codec: H26x, units: Seq<Seq<u8>>)
    ensures
        forall|i: int|
            0 <= i < nalus_chunks(codec, units).len() ==> (#[trigger] nalus_chunks(
                codec,
                units,
            )[i]).payload.len() <= 1_200,
    decreases units.len(),
{
    if units.len() > 0 {
        let first = nalu_chunks(codec, units[0], units.len() == 1);
        lemma_units_fit(codec, units[0], 0, units.len() == 1);
        lemma_nalus_fit(codec, units.drop_first());
        let rest = nalus_chunks(codec, units.drop_first());
        let all = nalus_chunks(codec, units);
        assert forall|i: int| 0 <= i < all.len() implies (#[trigger] all[i]).payload.len()
            <= 1_200 by {
            if i < first.len() {
                assert(all[i] == first[i]);
                if units[0].len() > 1_200 {
                    assert(first[i] == fragmentation_units_from(
                        codec,
                        units[0],
                        0,
                        units.len() == 1,
                    )[i]);
                }
            } else {
                assert(all[i] == rest[i - first.len()]);
            }
        }
    }
}

proof fn lemma_obu_fits(frame: Seq<u8>, start: int, end: int, offset: int)
    requires
        0 <= start,
    ensures
        forall|i: int|
            0 <= i < obu_chunks_from(frame, start, end, offset).len() ==> (
            #[trigger] obu_chunks_from(frame, start, end, offset)[i]).payload.len() <= 1_200,
    decreases end - offset,
{
    if start <= offset < end && end <= frame.len() {
        let stop = smaller(offset + 1_199, end);
        lemma_obu_fits(frame, start, end, stop);
        let rest = obu_chunks_from(frame, start, end, stop);
        let all = obu_chunks_from(frame, start, end, offset);
        assert forall|i: int| 0 <= i < all.len() implies (#[trigger] all[i]).payload.len()
            <= 1_200 by {
            if i > 0 {
                assert(all[i] == rest[i - 1]);
            }
        }
    }
}

proof fn lemma_obus_fit(frame: Seq<u8>, start: int)
    ensures
        forall|i: int|
            0 <= i < obus_plan_from(frame, start).chunks.len() ==> (#[trigger] obus_plan_from(
                frame,
                start,
            ).chunks[i]).payload.len() <= 1_200,
    decreases frame.len() - start,
{
    if 0 <= start < frame.len() {
        if let Ok(end) = obu_end(frame, start) {
            lemma_obu_fits(frame, start, end, start);
            lemma_obus_fit(frame, end);
            let first = obu_chunks_from(frame, start, end, start);
            let rest = obus_plan_from(frame, end).chunks;
            let all = obus_plan_from(frame, start).chunks;
            assert forall|i: int| 0 <= i < all.len() implies (#[trigger] all[i]).payload.len()
                <= 1_200 by {
                if i < first.len() {
                    assert(all[i] == first[i]);
                } else {
                    assert(all[i] == rest[i - first.len()]);
                }
            }
        }
    }
}

/// No payload is longer than a packet carries.
pub proof fn law_every_payload_fits(codec: Codec, frame: Seq<u8>, i: int)
    requires
        0 <= i < frame_plan(codec, frame).chunks.len(),
    ensures
        frame_plan(codec, frame).chunks[i].payload.len() <= 1_200,
{
    match codec {
        Codec::Opus => {},
        Codec::Vp8 => lemma_fragments_fit(FragmentedPayloadHeader::Vp8, frame, 0),
        Codec::Vp9 => lemma_fragments_fit(FragmentedPayloadHeader::Vp9, frame, 0),
        Codec::H264 => lemma_nalus_fit(H26x::H264, nalus(frame)),
        Codec::H265 => lemma_nalus_fit(H26x::H265, nalus(frame)),
        Codec::Av1 => lemma_obus_fit(frame, 0),
    }
}

/// A NAL unit that can be told from the start codes around it.
pub open spec fn separable_unit(unit: Seq<u8>) -> bool {
    &&& unit.len() > 0
    &&& forall|at: int|
        0 <= at && at + 2 < unit.len() ==> !((#[trigger] unit[at]) == 0 && unit[at + 1] == 0
            && unit[at + 2] == 1)
}

proof fn lemma_annex_b_read(prefix: Seq<u8>, units: Seq<Seq<u8>>)
    requires
        forall|i: int| 0 <= i < units.len() ==> separable_unit(#[trigger] units[i]),
    ensures
        nalus_from(prefix + annex_b(units), prefix.len() as int) == units,
    decreases units.len(),
{
    let bytes = prefix + annex_b(units);
    let from = prefix.len() as int;
    if units.len() == 0 {
        lemma_no_start_code(bytes, from);
        assert(units =~= seq![]);
    } else {
        let unit = units[0];
        let rest = units.drop_first();
        assert(separable_unit(units[0]));
        assert forall|i: int| 0 <= i < rest.len() implies separable_unit(#[trigger] rest[i]) by {
            assert(rest[i] == units[i + 1]);
        }
        let next_prefix = prefix + (long_start_code() + unit);
        assert(bytes =~= next_prefix + annex_b(rest));
        assert(bytes[from] == 0 && bytes[from + 1] == 0 && bytes[from + 2] == 0 && bytes[from + 3]
            == 1);
        let code = from + 1;
        assert(start_code_at(bytes, code));
        assert(!start_code_at(bytes, from));
        lemma_next_start_code_is(bytes, from, code);
        let start = code + 3;
        let unit_end = start + unit.len();
        assert forall|i: int| 0 <= i < unit.len() implies bytes[start + i] == #[trigger] unit[i] by {
        }
        assert(unit_end == next_prefix.len());
        if rest.len() == 0 {
            assert(annex_b(rest) =~= seq![]);
            assert(bytes.len() == unit_end);
            assert forall|at: int| start <= at implies !#[trigger] start_code_at(bytes, at) by {
                if at + 3 < bytes.len() {
                    let i = at - start;
                    assert(bytes[at] == unit[i]);
                    assert(bytes[at + 1] == unit[i + 1]);
                    assert(bytes[at + 2] == unit[i + 2]);
                }
            }
            lemma_no_start_code(bytes, start);
            assert(nalu_end(bytes, start) == unit_end);
        } else {
            assert(separable_unit(rest[0]));
            let tail = annex_b(rest);
            assert(tail[0] == 0 && tail[1] == 0 && tail[2] == 0 && tail[3] == 1);
            assert(tail.len() > 4);
            assert(bytes[unit_end] == 0 && bytes[unit_end + 1] == 0 && bytes[unit_end + 2] == 0
                && bytes[unit_end + 3] == 1);
            let next_code = unit_end + 1;
            assert(start_code_at(bytes, next_code));
            assert forall|at: int| start <= at < next_code implies !#[trigger] start_code_at(
                bytes,
                at,
            ) by {
                let i = at - start;
                if i + 2 < unit.len() {
                    assert(bytes[at] == unit[i]);
                    assert(bytes[at + 1] == unit[i + 1]);
                    assert(bytes[at + 2] == unit[i + 2]);
                }
            }
            lemma_next_start_code_is(bytes, start, next_code);
            assert(nalu_end(bytes, start) == unit_end);
        }
        assert(bytes.subrange(start, unit_end) =~= unit);
        lemma_annex_b_read(next_prefix, rest);
        assert(nalus_from(bytes, from) =~= units);
    }
}

/// NAL units written behind four-byte start codes are read back as they were.
pub proof fn law_annex_b_round_trips(units: Seq<Seq<u8>>)
    requires
        forall|i: int| 0 <= i < units.len() ==> separable_unit(#[trigger] units[i]),
    ensures
        nalus(annex_b(units)) == units,
{
    assert(Seq::<u8>::empty() + annex_b(units) =~= annex_b(units));
    lemma_annex_b_read(Seq::<u8>::empty(), units);
}

} // verus!
