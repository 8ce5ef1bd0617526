//! Packets in an Ogg stream.

use std::io::Cursor;
use vstd::prelude::*;

verus! {

/// Whether a page or the stream ends with a packet.
#[derive(Clone, Copy, Debug, PartialEq, Eq, Structural)]
pub enum PacketEnd {
    Neither,
    Page,
    Stream,
}

/// A packet that is written: its bytes, the number of its stream, what ends with it, and
/// where in the audio it ends.
pub struct WrittenPacket {
    pub data: Seq<u8>,
    pub serial: u32,
    pub end: PacketEnd,
    pub position: u64,
}

/// What a read gives: a packet, and whether it is the first of its stream; nothing where the
/// bytes end; or why there is no packet.
pub type OggRead = Result<Option<(Seq<u8>, bool)>, Seq<char>>;

/// A writer of packets into a row of bytes: the `PacketWriter` of the crate `ogg`.
#[verifier::external_body]
pub struct OggWriter {
    inner: ogg::PacketWriter<'static, Vec<u8>>,
}

/// A reader of packets from a row of bytes: the `PacketReader` of the crate `ogg`.
#[verifier::external_body]
pub struct OggReader {
    inner: ogg::PacketReader<Cursor<Vec<u8>>>,
}

/// The packets that were written, in turn.
pub uninterp spec fn ogg_written(writer: OggWriter) -> Seq<WrittenPacket>;

/// The bytes that a writer makes of packets.
pub uninterp spec fn ogg_stream(packets: Seq<WrittenPacket>) -> Seq<u8>;

/// The bytes that a reader reads.
pub uninterp spec fn ogg_source(reader: OggReader) -> Seq<u8>;

/// How often packets were asked for so far.
pub uninterp spec fn ogg_reads(reader: OggReader) -> nat;

/// What a reader of some bytes gives when it is asked for the time after so many.
pub uninterp spec fn ogg_read(bytes: Seq<u8>, reads: nat) -> OggRead;

/// How many lengths the page headers hold for a packet: one for every 255 bytes, and one
/// for the rest.
pub open spec fn packet_segments(len: int) -> int {
    len / 255 + 1
}

/// The same for the first packets together.
pub open spec fn segments_of(packets: Seq<WrittenPacket>) -> int
    decreases packets.len(),
{
    if packets.len() == 0 {
        0
    } else {
        segments_of(packets.drop_last()) + packet_segments(packets.last().data.len() as int)
    }
}

/// Whether packets make up one stream that is complete: they have one number, and a page
/// ends with the last.
pub open spec fn one_stream(packets: Seq<WrittenPacket>) -> bool {
    &&& packets.len() > 0
    &&& packets.last().end != PacketEnd::Neither
    &&& forall|i: int|
        0 <= i < packets.len() ==> (#[trigger] packets[i]).serial == packets[0].serial
}

/// The letters that a page begins with.
pub open spec fn page_mark() -> Seq<u8> {
    seq![0x4Fu8, 0x67u8, 0x67u8, 0x53u8]
}

/// What the reads of a complete stream give: its packets in turn, then the end. A packet is
/// marked as the first of its stream where it is the first one, and within the first page,
/// which holds less than 65,025 bytes.
pub open spec fn read_back(packets: Seq<WrittenPacket>, reads: nat) -> OggRead {
    if reads < packets.len() {
        Ok(
            Some(
                (
                    packets[reads as int].data,
                    reads == 0 && packets[0].data.len() < 65_025,
                ),
            ),
        )
    } else {
        Ok(None)
    }
}

impl OggWriter {
    /// `ogg::PacketWriter::new`, with a `Vec` to write to. Nothing is written yet.
    #[verifier::external_body]
    pub(crate) fn new() -> (writer: Self)
        ensures
            ogg_written(writer) == Seq::<WrittenPacket>::empty(),
    {
        OggWriter { inner: ogg::PacketWriter::new(Vec::new()) }
    }

    /// `ogg::PacketWriter::write_packet`. The packet comes after those that were written.
    /// All that can fail in it is writing, and a `Vec` grows as needed, so it succeeds; an
    /// error would be given in its words. Pages are counted in 32 bits, and each holds at
    /// least one of the lengths, so there may be no more of these.
    #[verifier::external_body]
    pub(crate) fn write_packet(
        &mut self,
        data: Vec<u8>,
        serial: u32,
        end: PacketEnd,
        position: u64,
    ) -> (result: Result<(), String>)
        requires
            segments_of(ogg_written(*old(self))) + packet_segments(data@.len() as int)
                <= u32::MAX,
        ensures
            result is Ok,
            ogg_written(*final(self)) == ogg_written(*old(self)).push(
                (WrittenPacket { data: data@, serial, end, position }),
            ),
    {
        let end = match end {
            PacketEnd::Neither => ogg::PacketWriteEndInfo::NormalPacket,
            PacketEnd::Page => ogg::PacketWriteEndInfo::EndPage,
            PacketEnd::Stream => ogg::PacketWriteEndInfo::EndStream,
        };
        self.inner.write_packet(data, serial, end, position).map_err(|error| error.to_string())
    }

    /// `ogg::PacketWriter::into_inner`. The bytes are made of the packets that were written
    /// alone. Where a page ends with the first, they begin with the mark of a page. Where
    /// the packets are one complete stream, reading gives them back.
    #[verifier::external_body]
    pub(crate) fn into_bytes(self) -> (bytes: Vec<u8>)
        ensures
            bytes@ == ogg_stream(ogg_written(self)),
            ogg_written(self).len() > 0 && ogg_written(self)[0].end != PacketEnd::Neither
                ==> bytes@.len() >= 4 && bytes@.subrange(0, 4) == page_mark(),
            one_stream(ogg_written(self)) ==> forall|reads: nat|
                reads <= ogg_written(self).len() ==> #[trigger] ogg_read(bytes@, reads)
                    == read_back(ogg_written(self), reads),
    {
        self.inner.into_inner()
    }
}

impl OggReader {
    /// `ogg::PacketReader::new`, with a `Cursor` over the bytes.
    #[verifier::external_body]
    pub(crate) fn new(bytes: Vec<u8>) -> (reader: Self)
        ensures
            ogg_source(reader) == bytes@,
            ogg_reads(reader) == 0,
    {
        OggReader { inner: ogg::PacketReader::new(Cursor::new(bytes)) }
    }

    /// `ogg::PacketReader::read_packet`. What it gives depends on the bytes and on how
    /// often it was asked before, and on nothing else. Of a packet, the data is taken, and
    /// whether it is the first of its stream (`Packet::first_in_stream`); an error is given
    /// in its words.
    #[verifier::external_body]
    pub(crate) fn read_packet(&mut self) -> (result: Result<Option<(Vec<u8>, bool)>, String>)
        ensures
            ogg_source(*final(self)) == ogg_source(*old(self)),
            ogg_reads(*final(self)) == ogg_reads(*old(self)) + 1,
            shown(result) == ogg_read(ogg_source(*old(self)), ogg_reads(*old(self))),
    {
        match self.inner.read_packet() {
            Ok(Some(packet)) => {
                let first = packet.first_in_stream();
                Ok(Some((packet.data, first)))
            },
            Ok(None) => Ok(None),
            Err(error) => Err(error.to_string()),
        }
    }
}

/// What was read, as the contracts speak of it.
pub open spec fn shown(read: Result<Option<(Vec<u8>, bool)>, String>) -> OggRead {
    match read {
        Ok(Some(packet)) => Ok(Some((packet.0@, packet.1))),
        Ok(None) => Ok(None),
        Err(error) => Err(error@),
    }
}

} // verus!
