//! What holds of the payloads that a frame is cut into.

use super::depacketize::long_start_code;
use super::h26x::H26x;
use super::laws::separable_unit;
use super::{
    fragmentation_units_from, fragments_from, frame_plan, nalu_chunks, nalus_chunks,
    obu_chunks_from, obu_end, obus_plan_from, FragmentedPayloadHeader, RtpChunk,
};
use crate::annex_b::{
    lemma_next_start_code_is, lemma_no_start_code, nalu_end, nalus, nalus_from, start_code_at,
};
use crate::codec::Codec;
use crate::leb128::{law_uleb128_is_read_back, uleb128_bytes};
use vstd::prelude::*;

verus! {

/// An AV1 open bitstream unit by its parts: its type, its extension byte where it has one,
/// whether it says its own size, and what it holds.
pub struct Obu {
    pub kind: u8,
    pub extension: Option<u8>,
    pub sized: bool,
    pub content: Seq<u8>,
}

impl Obu {
    /// The unit as it stands in a frame.
    pub open spec fn written(self) -> Seq<u8> {
        let extended: int = if self.extension is Some {
            4
        } else {
            0
        };
        let with_size: int = if self.sized {
            2
        } else {
            0
        };
        seq![(self.kind * 8 + extended + with_size) as u8] + (match self.extension {
            Some(byte) => seq![byte],
            None => seq![],
        }) + (if self.sized {
            uleb128_bytes(self.content.len())
        } else {
            seq![]
        }) + self.content
    }
}

/// Units that say their sizes, one behind the other.
pub open spec fn obus_written(obus: Seq<Obu>) -> Seq<u8>
    decreases obus.len(),
{
    if obus.len() == 0 {
        seq![]
    } else {
        obus[0].written() + obus_written(obus.drop_first())
    }
}

proof fn lemma_obu_flags(kind: u8, extended: u8, sized: u8)
    requires
        kind < 16,
        extended == 0 || extended == 4,
        sized == 0 || sized == 2,
    ensures
        ((kind * 8 + extended + sized) as u8) & 0x04 == extended,
        ((kind * 8 + extended + sized) as u8) & 0x02 == sized,
{
    assert(((kind * 8 + extended + sized) as u8) & 0x04 == extended && ((kind * 8 + extended
        + sized) as u8) & 0x02 == sized) by (bit_vector)
        requires
            kind < 16,
            extended == 0 || extended == 4,
            sized == 0 || sized == 2,
    ;
}

/// An open bitstream unit that says its size ends where its content does, with or without
/// an extension; one that does not goes on to the end of the frame.
pub proof fn law_units_end_with_their_content(before: Seq<u8>, obu: Obu, rest: Seq<u8>)
    requires
        obu.kind < 16,
        before.len() + obu.written().len() + rest.len() <= usize::MAX,
    ensures
        obu.sized ==> obu_end(before + obu.written() + rest, before.len() as int) == Ok::<
            int,
            super::RtpError,
        >((before.len() + obu.written().len()) as int),
        !obu.sized ==> obu_end(before + obu.written() + rest, before.len() as int) == Ok::<
            int,
            super::RtpError,
        >((before.len() + obu.written().len() + rest.len()) as int),
{
    let frame = before + obu.written() + rest;
    let at = before.len() as int;
    let extended: u8 = if obu.extension is Some {
        4
    } else {
        0
    };
    let sized: u8 = if obu.sized {
        2
    } else {
        0
    };
    lemma_obu_flags(obu.kind, extended, sized);
    assert(frame[at] == obu.written()[0]);
    assert(frame[at] == (obu.kind * 8 + extended + sized) as u8);
    let index = if obu.extension is Some {
        at + 2
    } else {
        at + 1
    };
    if obu.sized {
        law_uleb128_is_read_back(obu.content.len(), obu.content + rest);
        assert(frame.subrange(index, frame.len() as int) =~= uleb128_bytes(obu.content.len()) + (
        obu.content + rest));
    }
}

proof fn lemma_short_units(before: Seq<u8>, obus: Seq<Obu>, i: int)
    requires
        forall|j: int|
            0 <= j < obus.len() ==> (#[trigger] obus[j]).sized && obus[j].kind < 16
                && obus[j].written().len() <= 1_199,
        (before + obus_written(obus)).len() <= usize::MAX,
        0 <= i < obus.len(),
    ensures
        ({
            let plan = obus_plan_from(before + obus_written(obus), before.len() as int);
            &&& plan.failure is None
            &&& plan.chunks.len() == obus.len()
            &&& plan.chunks[i].payload == seq![0x10u8] + obus[i].written()
            &&& plan.chunks[i].marker == (i == obus.len() - 1)
        }),
    decreases obus.len(),
{
    let frame = before + obus_written(obus);
    let start = before.len() as int;
    let rest = obus.drop_first();
    let first = obus[0].written();
    assert(obus[0].sized);
    assert(frame =~= before + first + obus_written(rest));
    law_units_end_with_their_content(before, obus[0], obus_written(rest));
    let end = start + first.len();
    assert(first.len() > 0);
    let chunks = obu_chunks_from(frame, start, end, start);
    reveal_with_fuel(obu_chunks_from, 2);
    assert(chunks =~= seq![chunks[0]]);
    assert(frame.subrange(start, end) =~= first);
    let next = before + first;
    assert(frame =~= next + obus_written(rest));
    assert forall|j: int| 0 <= j < rest.len() implies (#[trigger] rest[j]).sized && rest[j].kind
        < 16 && rest[j].written().len() <= 1_199 by {
        assert(rest[j] == obus[j + 1]);
    }
    let tail = obus_plan_from(frame, end);
    if rest.len() == 0 {
        assert(obus_written(rest) =~= seq![]);
        assert(end == frame.len());
        assert(tail.chunks =~= seq![]);
    } else {
        assert(rest[0].written().len() > 0);
        assert(end < frame.len());
        lemma_short_units(next, rest, if i > 0 {
            i - 1
        } else {
            0
        });
        if i > 0 {
            assert((chunks + tail.chunks)[i] == tail.chunks[i - 1]);
        }
    }
}

/// Every open bitstream unit that fits goes into a payload of its own, whole, and the last
/// one of the frame is marked.
pub proof fn law_short_units_go_one_by_one(obus: Seq<Obu>, i: int)
    requires
        forall|j: int|
            0 <= j < obus.len() ==> (#[trigger] obus[j]).sized && obus[j].kind < 16
                && obus[j].written().len() <= 1_199,
        obus_written(obus).len() <= usize::MAX,
        0 <= i < obus.len(),
    ensures
        ({
            let plan = frame_plan(Codec::Av1, obus_written(obus));
            &&& plan.failure is None
            &&& plan.chunks.len() == obus.len()
            &&& plan.chunks[i].payload == seq![0x10u8] + obus[i].written()
            &&& plan.chunks[i].marker == (i == obus.len() - 1)
        }),
{
    assert(Seq::<u8>::empty() + obus_written(obus) =~= obus_written(obus));
    lemma_short_units(Seq::<u8>::empty(), obus, i);
}

/// A unit that was cut up goes on in the next payload: all of them but the last are full,
/// only the first does not continue another, and only the last does not go on.
pub proof fn law_long_units_fill_their_payloads(
    frame: Seq<u8>,
    start: int,
    end: int,
    offset: int,
    i: int,
)
    requires
        0 <= start <= offset < end <= frame.len(),
        0 <= i < obu_chunks_from(frame, start, end, offset).len(),
    ensures
        ({
            let chunks = obu_chunks_from(frame, start, end, offset);
            let last = i == chunks.len() - 1;
            let from = offset + 1_199 * i;
            &&& !last ==> chunks[i].payload.len() == 1_200
            &&& chunks[i].payload.len() <= 1_200
            &&& chunks[i].payload.skip(1) == frame.subrange(
                from,
                from + chunks[i].payload.len() - 1,
            )
            &&& (chunks[i].payload[0] & 0x80 != 0) == (from > start)
            &&& (chunks[i].payload[0] & 0x40 != 0) == !last
            &&& chunks[i].payload[0] & 0x30 == 0x10
            &&& last ==> from + chunks[i].payload.len() - 1 == end
            &&& chunks[i].marker == (last && end == frame.len())
        }),
    decreases end - offset,
{
    let stop = if offset + 1_199 <= end {
        offset + 1_199
    } else {
        end
    };
    let chunks = obu_chunks_from(frame, start, end, offset);
    let rest = obu_chunks_from(frame, start, end, stop);
    assert(0x10u8 & 0x80 == 0 && 0x10u8 & 0x40 == 0 && 0x10u8 & 0x30 == 0x10 && 0x50u8 & 0x80 == 0
        && 0x50u8 & 0x40 != 0 && 0x50u8 & 0x30 == 0x10 && 0x90u8 & 0x80 != 0 && 0x90u8 & 0x40 == 0
        && 0x90u8 & 0x30 == 0x10 && 0xd0u8 & 0x80 != 0 && 0xd0u8 & 0x40 != 0 && 0xd0u8 & 0x30
        == 0x10) by (bit_vector);
    if stop < end {
        let more = obu_chunks_from(frame, start, end, stop);
        assert(more.len() > 0);
        if i > 0 {
            law_long_units_fill_their_payloads(frame, start, end, stop, i - 1);
            assert(chunks[i] == rest[i - 1]);
        }
    } else {
        assert(rest =~= seq![]);
    }
    if i == 0 {
        assert(chunks[0].payload.skip(1) =~= frame.subrange(offset, stop));
    }
}

/// A VP8 or VP9 frame is cut into full payloads, and what is left: each holds the bytes that
/// follow those of the one before, only the first is said to start the frame, and only the
/// last is marked.
pub proof fn law_vpx_frames_fill_their_payloads(
    header: FragmentedPayloadHeader,
    frame: Seq<u8>,
    offset: int,
    i: int,
)
    requires
        0 <= offset < frame.len(),
        0 <= i < fragments_from(header, frame, offset).len(),
    ensures
        ({
            let chunks = fragments_from(header, frame, offset);
            let last = i == chunks.len() - 1;
            let from = offset + 1_199 * i;
            let first = from == 0;
            &&& !last ==> chunks[i].payload.len() == 1_200
            &&& chunks[i].payload.len() <= 1_200
            &&& chunks[i].payload.skip(1) == frame.subrange(
                from,
                from + chunks[i].payload.len() - 1,
            )
            &&& last ==> from + chunks[i].payload.len() - 1 == frame.len()
            &&& chunks[i].marker == last
            &&& match header {
                FragmentedPayloadHeader::Vp8 => (chunks[i].payload[0] == 0x10u8) == first && (
                chunks[i].payload[0] == 0) == !first,
                FragmentedPayloadHeader::Vp9 => chunks[i].payload[0] == (if first {
                    8int
                } else {
                    0
                }) + (if last {
                    4int
                } else {
                    0
                }),
            }
        }),
    decreases frame.len() - offset,
{
    let stop = if offset + 1_199 <= frame.len() {
        offset + 1_199
    } else {
        frame.len() as int
    };
    let chunks = fragments_from(header, frame, offset);
    let rest = fragments_from(header, frame, stop);
    if stop < frame.len() {
        assert(rest.len() > 0);
        if i > 0 {
            law_vpx_frames_fill_their_payloads(header, frame, stop, i - 1);
            assert(chunks[i] == rest[i - 1]);
        }
    } else {
        assert(rest =~= seq![]);
    }
    if i == 0 {
        assert(chunks[0].payload.skip(1) =~= frame.subrange(offset, stop));
    }
}

/// A long NAL unit is cut into full fragmentation units, and what is left: each holds the
/// bytes that follow those of the one before, and the last one of the frame's last unit is
/// marked.
pub proof fn law_long_nal_units_fill_their_payloads(
    codec: H26x,
    nalu: Seq<u8>,
    offset: int,
    last_nalu: bool,
    i: int,
)
    requires
        0 <= offset < nalu.len() - codec.nal_header_len(),
        0 <= i < fragmentation_units_from(codec, nalu, offset, last_nalu).len(),
    ensures
        ({
            let chunks = fragmentation_units_from(codec, nalu, offset, last_nalu);
            let last = i == chunks.len() - 1;
            let head: int = if codec == H26x::H264 {
                2
            } else {
                3
            };
            let from = head - 1 + offset + (1_200 - head) * i;
            &&& !last ==> chunks[i].payload.len() == 1_200
            &&& chunks[i].payload.len() <= 1_200
            &&& chunks[i].payload.skip(head) == nalu.subrange(
                from,
                from + chunks[i].payload.len() - head,
            )
            &&& last ==> from + chunks[i].payload.len() - head == nalu.len()
            &&& chunks[i].marker == (last && last_nalu)
        }),
    decreases nalu.len() - offset,
{
    let head = codec.fragment_header_len();
    let body = nalu.len() - codec.nal_header_len();
    let stop = if offset + 1_200 - head <= body {
        offset + 1_200 - head
    } else {
        body
    };
    let chunks = fragmentation_units_from(codec, nalu, offset, last_nalu);
    let rest = fragmentation_units_from(codec, nalu, stop, last_nalu);
    if stop < body {
        assert(rest.len() > 0);
        if i > 0 {
            law_long_nal_units_fill_their_payloads(codec, nalu, stop, last_nalu, i - 1);
            assert(chunks[i] == rest[i - 1]);
            assert((1_200 - head) * i == (1_200 - head) * (i - 1) + (1_200 - head))
                by (nonlinear_arith);
        }
    } else {
        assert(rest =~= seq![]);
    }
    if i == 0 {
        assert(chunks[0].payload.skip(head) =~= nalu.subrange(
            codec.nal_header_len() + offset,
            codec.nal_header_len() + stop,
        ));
    }
}

/// NAL units that fit go out as they are, one to a payload, in order, and the last one is
/// marked.
pub proof fn law_short_nal_units_go_as_they_are(codec: H26x, units: Seq<Seq<u8>>, i: int)
    requires
        forall|j: int| 0 <= j < units.len() ==> (#[trigger] units[j]).len() <= 1_200,
        0 <= i < units.len(),
    ensures
        ({
            let chunks = nalus_chunks(codec, units);
            &&& chunks.len() == units.len()
            &&& chunks[i].payload == units[i]
            &&& chunks[i].marker == (i == units.len() - 1)
        }),
    decreases units.len(),
{
    let rest = units.drop_first();
    assert(units[0].len() <= 1_200);
    assert forall|j: int| 0 <= j < rest.len() implies (#[trigger] rest[j]).len() <= 1_200 by {
        assert(rest[j] == units[j + 1]);
    }
    if rest.len() > 0 {
        law_short_nal_units_go_as_they_are(codec, rest, if i > 0 {
            i - 1
        } else {
            0
        });
    } else {
        assert(nalus_chunks(codec, rest) =~= seq![]);
    }
    assert(nalu_chunks(codec, units[0], units.len() == 1).len() == 1);
}

/// An Opus frame that fits is one payload without a mark; a longer one is refused, and
/// nothing goes out.
pub proof fn law_opus_frames_go_whole(frame: Seq<u8>)
    ensures
        frame.len() <= 1_200 ==> frame_plan(Codec::Opus, frame).chunks == seq![
            RtpChunk { payload: frame, marker: false },
        ] && frame_plan(Codec::Opus, frame).failure is None,
        frame.len() > 1_200 ==> frame_plan(Codec::Opus, frame).chunks.len() == 0 && frame_plan(
            Codec::Opus,
            frame,
        ).failure is Some,
{
}

/// The start code before a unit: of three bytes or of four.
pub open spec fn start_code(short: bool) -> Seq<u8> {
    if short {
        seq![0u8, 0u8, 1u8]
    } else {
        long_start_code()
    }
}

/// Units behind start codes of either length.
pub open spec fn units_written(units: Seq<Seq<u8>>, short: Seq<bool>) -> Seq<u8>
    decreases units.len(),
{
    if units.len() == 0 {
        seq![]
    } else {
        start_code(short[0]) + units[0] + units_written(units.drop_first(), short.drop_first())
    }
}

proof fn lemma_units_read(prefix: Seq<u8>, units: Seq<Seq<u8>>, short: Seq<bool>)
    requires
        units.len() == short.len(),
        forall|i: int|
            0 <= i < units.len() ==> separable_unit(#[trigger] units[i]) && units[i].last() != 0,
    ensures
        nalus_from(prefix + units_written(units, short), prefix.len() as int) == units,
    decreases units.len(),
{
    let bytes = prefix + units_written(units, short);
    let from = prefix.len() as int;
    if units.len() == 0 {
        lemma_no_start_code(bytes, from);
        assert(units =~= seq![]);
    } else {
        let unit = units[0];
        let rest = units.drop_first();
        let short_rest = short.drop_first();
        assert(separable_unit(units[0]));
        assert forall|i: int| 0 <= i < rest.len() implies separable_unit(#[trigger] rest[i])
            && rest[i].last() != 0 by {
            assert(rest[i] == units[i + 1]);
        }
        let next_prefix = prefix + (start_code(short[0]) + unit);
        let tail = units_written(rest, short_rest);
        assert(bytes =~= next_prefix + tail);
        let code = if short[0] {
            from
        } else {
            from + 1
        };
        assert(bytes[code] == 0 && bytes[code + 1] == 0 && bytes[code + 2] == 1);
        assert(start_code_at(bytes, code));
        if !short[0] {
            assert(bytes[from] == 0);
            assert(!start_code_at(bytes, from));
        }
        lemma_next_start_code_is(bytes, from, code);
        let start = code + 3;
        let unit_end = start + unit.len();
        assert forall|i: int| 0 <= i < unit.len() implies bytes[start + i] == #[trigger] unit[i] by {
        }
        assert(unit_end == next_prefix.len());
        if rest.len() == 0 {
            assert(tail =~= seq![]);
            assert forall|at: int| start <= at implies !#[trigger] start_code_at(bytes, at) by {
                if at + 3 < bytes.len() {
                    let i = at - start;
                    assert(bytes[at] == unit[i]);
                    assert(bytes[at + 1] == unit[i + 1]);
                    assert(bytes[at + 2] == unit[i + 2]);
                }
            }
            lemma_no_start_code(bytes, start);
        } else {
            assert(separable_unit(rest[0]));
            let next_code = if short_rest[0] {
                unit_end
            } else {
                unit_end + 1
            };
            assert(tail.len() > start_code(short_rest[0]).len());
            assert forall|j: int| 0 <= j < start_code(short_rest[0]).len() implies bytes[unit_end
                + j] == #[trigger] start_code(short_rest[0])[j] by {
                assert(tail[j] == start_code(short_rest[0])[j]);
            }
            assert(bytes[unit_end] == start_code(short_rest[0])[0]);
            assert(bytes[unit_end + 1] == start_code(short_rest[0])[1]);
            assert(bytes[unit_end + 2] == start_code(short_rest[0])[2]);
            if !short_rest[0] {
                assert(bytes[unit_end + 3] == start_code(short_rest[0])[3]);
            }
            assert(start_code_at(bytes, next_code));
            let last = unit.len() - 1;
            assert(bytes[unit_end - 1] == unit[last]);
            assert(unit[last] != 0);
            assert forall|at: int| start <= at < next_code implies !#[trigger] start_code_at(
                bytes,
                at,
            ) by {
                let i = at - start;
                if i + 2 < unit.len() {
                    assert(bytes[at] == unit[i]);
                    assert(bytes[at + 1] == unit[i + 1]);
                    assert(bytes[at + 2] == unit[i + 2]);
                }
            }
            lemma_next_start_code_is(bytes, start, next_code);
        }
        assert(nalu_end(bytes, start) == unit_end);
        assert(bytes.subrange(start, unit_end) =~= unit);
        lemma_units_read(next_prefix, rest, short_rest);
        assert(nalus_from(bytes, from) =~= units);
    }
}

/// NAL units are read as they were written, whichever of the two start codes stands before
/// each.
pub proof fn law_start_codes_of_both_lengths_are_read(units: Seq<Seq<u8>>, short: Seq<bool>)
    requires
        units.len() == short.len(),
        forall|i: int|
            0 <= i < units.len() ==> separable_unit(#[trigger] units[i]) && units[i].last() != 0,
    ensures
        nalus(units_written(units, short)) == units,
{
    assert(Seq::<u8>::empty() + units_written(units, short) =~= units_written(units, short));
    lemma_units_read(Seq::<u8>::empty(), units, short);
}

} // verus!
