//! Many packets in one row of bytes.

use super::config::block_duration;
use super::packet::Packet;
use crate::bytes::to_vec;
use crate::errors::Error;
use crate::pcm::blocks::in_a_row;
use crate::time::Duration;
use std::ops::Range;
use vstd::prelude::*;
use vstd::slice::slice_subrange;

verus! {

/// Where a packet stands in a row of bytes.
#[derive(Clone, Copy, Debug, PartialEq, Eq, Structural)]
pub struct PacketSpan {
    pub offset: usize,
    pub len: usize,
}

impl PacketSpan {
    pub fn len(self) -> (len: usize)
        ensures
            len == self.len,
    {
        self.len
    }

    pub fn is_empty(self) -> (empty: bool)
        ensures
            empty == (self.len == 0),
    {
        self.len == 0
    }

    pub fn duration(self) -> (duration: Duration)
        ensures
            duration.nanos == 20_000_000,
    {
        block_duration()
    }

    pub fn range(self) -> (range: Range<usize>)
        requires
            self.offset + self.len <= usize::MAX,
        ensures
            range.start == self.offset,
            range.end == self.offset + self.len,
    {
        self.offset..self.offset + self.len
    }
}

/// A packet in a batch.
#[derive(Clone, Copy, Debug, PartialEq, Eq)]
pub struct PacketRef<'a> {
    bytes: &'a [u8],
}

impl<'a> View for PacketRef<'a> {
    type V = Seq<u8>;

    closed spec fn view(&self) -> Seq<u8> {
        self.bytes@
    }
}

impl<'a> PacketRef<'a> {
    pub fn bytes(self) -> (bytes: &'a [u8])
        ensures
            bytes@ == self@,
    {
        self.bytes
    }

    pub fn duration(self) -> (duration: Duration)
        ensures
            duration.nanos == 20_000_000,
    {
        block_duration()
    }

    pub fn to_packet(self) -> (packet: Packet)
        ensures
            packet@ == self@,
    {
        Packet::from_encoder_bytes(to_vec(self.bytes))
    }
}

/// Packets one after the other in one row of bytes.
#[derive(Debug)]
pub struct PacketBatch {
    bytes: Vec<u8>,
    packets: Vec<PacketSpan>,
}

/// The bytes that a span stands for.
pub open spec fn spanned(bytes: Seq<u8>, span: PacketSpan) -> Seq<u8> {
    bytes.subrange(span.offset as int, span.offset + span.len)
}

/// The packets as rows of their own.
impl View for PacketBatch {
    type V = Seq<Seq<u8>>;

    closed spec fn view(&self) -> Seq<Seq<u8>> {
        self.packets@.map_values(|span: PacketSpan| spanned(self.bytes@, span))
    }
}

/// Whether spans lie one after the other in a row of bytes and leave none of it out.
pub open spec fn tiles(bytes: Seq<u8>, spans: Seq<PacketSpan>) -> bool {
    &&& spans.len() == 0 ==> bytes.len() == 0
    &&& spans.len() > 0 ==> spans[0].offset == 0 && spans.last().offset + spans.last().len
        == bytes.len()
    &&& forall|i: int, j: int|
        0 <= i < spans.len() - 1 && j == i + 1 ==> (#[trigger] spans[i]).offset + spans[i].len == (
        #[trigger] spans[j]).offset
}

/// Where packets that are encoded go.
pub trait PacketSink: Sized {
    /// The packets so far.
    spec fn packets(self) -> Seq<Seq<u8>>;

    /// Whether `after` is what `before` becomes when a packet of these bytes is added.
    spec fn grown(before: Self, after: Self, bytes: Seq<u8>) -> bool;

    /// Has a packet encoded into an empty buffer, and adds it. An error of the encoder is
    /// passed on, and then nothing is added, whatever it left in the buffer.
    fn encode_packet<F: FnOnce(&mut Vec<u8>) -> Result<usize, Error>>(&mut self, encode: F) -> (
        result: Result<(), Error>)
        requires
            forall|buffer: &mut Vec<u8>|
                buffer@.len() == 0 ==> #[trigger] call_requires(encode, (buffer,)),
        ensures
            exists|buffer: &mut Vec<u8>, written: Result<usize, Error>|
                {
                    &&& buffer@.len() == 0
                    &&& #[trigger] call_ensures(encode, (buffer,), written)
                    &&& match written {
                        Ok(_) => {
                            &&& result == Ok::<(), Error>(())
                            &&& final(self).packets() == old(self).packets().push(final(buffer)@)
                            &&& Self::grown(*old(self), *final(self), final(buffer)@)
                        },
                        Err(error) => {
                            &&& result == Err::<(), Error>(error)
                            &&& *final(self) == *old(self)
                        },
                    }
                },
    ;
}

/// The bytes of some packets.
pub open spec fn packet_rows(packets: Seq<Packet>) -> Seq<Seq<u8>> {
    packets.map_values(|packet: Packet| packet@)
}

impl PacketSink for Vec<Packet> {
    open spec fn packets(self) -> Seq<Seq<u8>> {
        packet_rows(self@)
    }

    open spec fn grown(before: Self, after: Self, bytes: Seq<u8>) -> bool {
        &&& after@.len() == before@.len() + 1
        &&& after@.drop_last() == before@
        &&& after@.last()@ == bytes
    }

    fn encode_packet<F: FnOnce(&mut Vec<u8>) -> Result<usize, Error>>(&mut self, encode: F) -> (
        result: Result<(), Error>) {
        let ghost before = self@;
        let mut bytes: Vec<u8> = Vec::new();
        match encode(&mut bytes) {
            Ok(_) => {
                let ghost row = bytes@;
                self.push(Packet::from_encoder_bytes(bytes));
                assert(packet_rows(self@) =~= packet_rows(before).push(row));
                assert(self@.drop_last() =~= before);
                Ok(())
            },
            Err(error) => Err(error),
        }
    }
}

impl PacketSink for PacketBatch {
    open spec fn packets(self) -> Seq<Seq<u8>> {
        self@
    }

    /// The bytes come behind those that are there, and the span stands for them.
    open spec fn grown(before: Self, after: Self, bytes: Seq<u8>) -> bool {
        &&& after.slab() == before.slab() + bytes
        &&& after.placed() == before.placed().push(
            PacketSpan { offset: before.slab().len() as usize, len: bytes.len() as usize },
        )
    }

    fn encode_packet<F: FnOnce(&mut Vec<u8>) -> Result<usize, Error>>(&mut self, encode: F) -> (
        result: Result<(), Error>) {
        let ghost before = *self;
        let mut bytes: Vec<u8> = Vec::new();
        match encode(&mut bytes) {
            Ok(_) => {
                let ghost row = bytes@;
                let (mut slab, mut spans) = self.take_parts();
                let offset = slab.len();
                let len = bytes.len();
                slab.append(&mut bytes);
                spans.push(PacketSpan { offset, len });
                proof {
                    assert(slab@.len() == slab.len());
                    lemma_slab_grown(before.slab(), before.placed(), row, slab@, spans@);
                }
                *self = PacketBatch { bytes: slab, packets: spans };
                assert(self@ =~= before@.push(row));
                Ok(())
            },
            Err(error) => Err(error),
        }
    }
}

/// Whether all spans lie within the bytes.
spec fn within(bytes: Seq<u8>, spans: Seq<PacketSpan>) -> bool {
    forall|i: int|
        0 <= i < spans.len() ==> (#[trigger] spans[i]).offset + spans[i].len <= bytes.len()
}

proof fn lemma_slab_grown(
    old_slab: Seq<u8>,
    old_spans: Seq<PacketSpan>,
    row: Seq<u8>,
    slab: Seq<u8>,
    spans: Seq<PacketSpan>,
)
    requires
        within(old_slab, old_spans),
        tiles(old_slab, old_spans),
        slab == old_slab + row,
        slab.len() <= usize::MAX,
        spans == old_spans.push(
            PacketSpan { offset: old_slab.len() as usize, len: row.len() as usize },
        ),
    ensures
        within(slab, spans),
        tiles(slab, spans),
        spans.map_values(|span: PacketSpan| spanned(slab, span)) == old_spans.map_values(
            |span: PacketSpan| spanned(old_slab, span),
        ).push(row),
{
    let left = spans.map_values(|span: PacketSpan| spanned(slab, span));
    let right = old_spans.map_values(|span: PacketSpan| spanned(old_slab, span)).push(row);
    assert forall|i: int| 0 <= i < left.len() implies left[i] == right[i] by {
        if i < old_spans.len() {
            assert(spans[i] == old_spans[i]);
            assert(old_spans[i].offset + old_spans[i].len <= old_slab.len());
            assert(spanned(slab, spans[i]) =~= spanned(old_slab, old_spans[i]));
        } else {
            assert(spanned(slab, spans[i]) =~= row);
        }
    }
    assert(left =~= right);
    assert forall|i: int| 0 <= i < spans.len() implies (#[trigger] spans[i]).offset + spans[i].len
        <= slab.len() by {
        if i < old_spans.len() {
            assert(spans[i] == old_spans[i]);
            assert(old_spans[i].offset + old_spans[i].len <= old_slab.len());
        }
    }
}

/// The rows that tile some bytes are these bytes one after the other.
pub proof fn law_tiles_make_up_the_bytes(bytes: Seq<u8>, spans: Seq<PacketSpan>)
    requires
        tiles(bytes, spans),
    ensures
        in_a_row(spans.map_values(|span: PacketSpan| spanned(bytes, span))) == bytes,
    decreases spans.len(),
{
    let rows = spans.map_values(|span: PacketSpan| spanned(bytes, span));
    if spans.len() > 0 {
        let last = spans.last();
        let rest = spans.drop_last();
        let head = bytes.take(last.offset as int);
        assert(rest.len() > 0 ==> rest.last().offset + rest.last().len == last.offset) by {
            if rest.len() > 0 {
                assert(spans[rest.len() - 1].offset + spans[rest.len() - 1].len
                    == spans[rest.len() as int].offset);
            }
        }
        assert(tiles(head, rest)) by {
            assert forall|i: int, j: int| 0 <= i < rest.len() - 1 && j == i + 1 implies (
            #[trigger] rest[i]).offset + rest[i].len == (#[trigger] rest[j]).offset by {
                assert(spans[i].offset + spans[i].len == spans[j].offset);
            }
        }
        law_tiles_make_up_the_bytes(head, rest);
        let shorter = rest.map_values(|span: PacketSpan| spanned(head, span));
        assert forall|i: int| 0 <= i < rest.len() implies shorter[i] == #[trigger] rows[i] by {
            lemma_tiles_end(head, rest, i);
            assert(spanned(head, rest[i]) =~= spanned(bytes, spans[i]));
        }
        assert(rows.drop_last() =~= shorter);
        assert(rows.last() == spanned(bytes, last));
        assert(head + spanned(bytes, last) =~= bytes);
    }
}

proof fn lemma_tiles_end(bytes: Seq<u8>, spans: Seq<PacketSpan>, at: int)
    requires
        tiles(bytes, spans),
        0 <= at < spans.len(),
    ensures
        spans[at].offset + spans[at].len <= bytes.len(),
    decreases spans.len() - at,
{
    if at < spans.len() - 1 {
        assert(spans[at].offset + spans[at].len == spans[at + 1].offset);
        lemma_tiles_end(bytes, spans, at + 1);
    }
}

impl PacketBatch {
    #[verifier::type_invariant]
    spec fn spans_tile(self) -> bool {
        within(self.bytes@, self.packets@) && tiles(self.bytes@, self.packets@)
    }

    /// All bytes in a row.
    pub closed spec fn slab(self) -> Seq<u8> {
        self.bytes@
    }

    /// Where the packets stand in it.
    pub closed spec fn placed(self) -> Seq<PacketSpan> {
        self.packets@
    }

    pub fn new() -> (batch: Self)
        ensures
            batch@ == Seq::<Seq<u8>>::empty(),
            batch.slab() == Seq::<u8>::empty(),
            batch.placed() == Seq::<PacketSpan>::empty(),
    {
        let batch = PacketBatch { bytes: Vec::new(), packets: Vec::new() };
        assert(batch@ =~= Seq::<Seq<u8>>::empty());
        batch
    }

    fn take_parts(&mut self) -> (parts: (Vec<u8>, Vec<PacketSpan>))
        ensures
            parts.0@ == old(self).slab(),
            parts.1@ == old(self).placed(),
            within(parts.0@, parts.1@),
            tiles(parts.0@, parts.1@),
    {
        let mut whole = PacketBatch::new();
        std::mem::swap(self, &mut whole);
        proof {
            use_type_invariant(&whole);
        }
        let PacketBatch { bytes, packets } = whole;
        (bytes, packets)
    }

    pub fn len(&self) -> (len: usize)
        ensures
            len == self@.len(),
    {
        self.packets.len()
    }

    pub fn is_empty(&self) -> (empty: bool)
        ensures
            empty == (self@.len() == 0),
    {
        self.packets.len() == 0
    }

    pub fn clear(&mut self)
        ensures
            final(self)@ == Seq::<Seq<u8>>::empty(),
            final(self).slab() == Seq::<u8>::empty(),
            final(self).placed() == Seq::<PacketSpan>::empty(),
    {
        *self = PacketBatch::new();
    }

    pub fn bytes(&self) -> (bytes: &[u8])
        ensures
            bytes@ == self.slab(),
    {
        self.bytes.as_slice()
    }

    /// Where the packets stand: one after the other, from the first byte to the last.
    pub fn spans(&self) -> (spans: &[PacketSpan])
        ensures
            spans@ == self.placed(),
            tiles(self.slab(), spans@),
            spans@.len() == self@.len(),
            forall|i: int|
                0 <= i < spans@.len() ==> (#[trigger] spans@[i]).offset + spans@[i].len
                    <= self.slab().len() && self@[i] == spanned(self.slab(), spans@[i]),
    {
        proof {
            use_type_invariant(self);
        }
        self.packets.as_slice()
    }

    /// The packet at a span, which has to lie within the bytes.
    pub fn packet(&self, span: PacketSpan) -> (packet: PacketRef<'_>)
        requires
            span.offset + span.len <= self.slab().len(),
        ensures
            packet@ == spanned(self.slab(), span),
    {
        let len = self.bytes.len();
        PacketRef {
            bytes: slice_subrange(self.bytes.as_slice(), span.offset, span.offset + span.len),
        }
    }

    /// The packets in turn.
    pub fn iter(&self) -> (packets: Vec<PacketRef<'_>>)
        ensures
            packets@.len() == self@.len(),
            forall|i: int| 0 <= i < packets@.len() ==> (#[trigger] packets@[i])@ == self@[i],
            packets@.len() == self.placed().len(),
            forall|i: int|
                0 <= i < packets@.len() ==> (#[trigger] packets@[i])@ == spanned(
                    self.slab(),
                    self.placed()[i],
                ),
            in_a_row(self@) == self.slab(),
    {
        proof {
            use_type_invariant(self);
            law_tiles_make_up_the_bytes(self.bytes@, self.packets@);
        }
        let count = self.packets.len();
        let mut packets: Vec<PacketRef<'_>> = Vec::new();
        let mut i: usize = 0;
        while i < count
            invariant
                count == self.packets@.len(),
                i <= count,
                packets@.len() == i,
                within(self.bytes@, self.packets@),
                forall|k: int| 0 <= k < i ==> (#[trigger] packets@[k])@ == self@[k],
            decreases count - i,
        {
            assert(self.packets@[i as int].offset + self.packets@[i as int].len
                <= self.bytes@.len());
            packets.push(self.packet(self.packets[i]));
            i = i + 1;
        }
        packets
    }

    pub fn into_packets(self) -> (packets: Vec<Packet>)
        ensures
            packet_rows(packets@) == self@,
            in_a_row(self@) == self.slab(),
    {
        proof {
            use_type_invariant(&self);
            law_tiles_make_up_the_bytes(self.bytes@, self.packets@);
        }
        let count = self.packets.len();
        let mut packets: Vec<Packet> = Vec::new();
        let mut i: usize = 0;
        while i < count
            invariant
                count == self.packets@.len(),
                i <= count,
                packets@.len() == i,
                within(self.bytes@, self.packets@),
                forall|k: int| 0 <= k < i ==> (#[trigger] packets@[k])@ == self@[k],
            decreases count - i,
        {
            assert(self.packets@[i as int].offset + self.packets@[i as int].len
                <= self.bytes@.len());
            let reference = self.packet(self.packets[i]);
            packets.push(reference.to_packet());
            i = i + 1;
        }
        assert(packet_rows(packets@) =~= self@);
        packets
    }

    /// The bytes, and where the packets stand in them.
    pub fn into_parts(self) -> (parts: (Vec<u8>, Vec<PacketSpan>))
        ensures
            parts.0@ == self.slab(),
            parts.1@ == self.placed(),
            tiles(parts.0@, parts.1@),
            parts.1@.len() == self@.len(),
            forall|i: int|
                0 <= i < parts.1@.len() ==> (#[trigger] parts.1@[i]).offset + parts.1@[i].len
                    <= parts.0@.len() && self@[i] == spanned(parts.0@, parts.1@[i]),
    {
        proof {
            use_type_invariant(&self);
        }
        let PacketBatch { bytes, packets } = self;
        (bytes, packets)
    }
}

} // verus!
