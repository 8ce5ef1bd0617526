//! What holds of payloads that other senders write, with all that they may hold.

use super::depacketize::{
    aggregation_bytes, element_bytes, fragment_of, read_payload, vp8_descriptor_of,
    vp9_descriptor_len, vp9_layers_end, vp9_pictures_end, vp9_references_end, vp9_scalability_end,
    PayloadBody,
};
use super::h26x::H26x;
use crate::codec::Codec;
use crate::errors::RtpError;
use crate::leb128::{law_uleb128_is_read_back, uleb128_bytes};
use vstd::prelude::*;

verus! {

/// What a flag is worth in its byte.
pub open spec fn bit(flag: bool, worth: int) -> int {
    if flag {
        worth
    } else {
        0
    }
}

/// Each bit of a byte by arithmetic.
proof fn lemma_bits(b: u8)
    ensures
        (b & 0x80 != 0) == (b >= 128),
        (b & 0x40 != 0) == (b / 64 % 2 == 1),
        (b & 0x20 != 0) == (b / 32 % 2 == 1),
        (b & 0x10 != 0) == (b / 16 % 2 == 1),
        (b & 0x08 != 0) == (b / 8 % 2 == 1),
        (b & 0x04 != 0) == (b / 4 % 2 == 1),
        (b & 0x02 != 0) == (b / 2 % 2 == 1),
        (b & 0x01 == 0) == (b % 2 == 0),
        (b & 0x30 != 0) == (b / 16 % 4 != 0),
        b & 0x0f == b % 16,
        b & 0x07 == b % 8,
        b & 0x03 == b % 4,
        b & 0x1f == b % 32,
        b & 0xe0 == b - b % 32,
        (b >> 1) & 0x3f == b / 2 % 64,
        (b >> 4) & 0x03 == b / 16 % 4,
{
    assert((b & 0x80 != 0) == (b >= 128) && (b & 0x40 != 0) == (b / 64 % 2 == 1) && (b & 0x20 != 0)
        == (b / 32 % 2 == 1) && (b & 0x10 != 0) == (b / 16 % 2 == 1) && (b & 0x08 != 0) == (b / 8
        % 2 == 1) && (b & 0x04 != 0) == (b / 4 % 2 == 1) && (b & 0x02 != 0) == (b / 2 % 2 == 1)
        && (b & 0x01 == 0) == (b % 2 == 0) && (b & 0x30 != 0) == (b / 16 % 4 != 0) && b & 0x0f == b
        % 16 && b & 0x07 == b % 8 && b & 0x03 == b % 4 && b & 0x1f == b % 32 && b & 0xe0 == b - b
        % 32 && (b >> 1) & 0x3f == b / 2 % 64 && (b >> 4) & 0x03 == b / 16 % 4) by (bit_vector);
}

/// What a flag is worth in its byte, as a byte.
spec fn flag(set: bool, worth: u8) -> u8 {
    if set {
        worth
    } else {
        0
    }
}

/// The bits of a byte that is made of four flags and a number of four bits.
proof fn lemma_flags(b7: bool, b6: bool, b5: bool, b4: bool, low: u8, byte: u8)
    requires
        low < 16,
        byte == bit(b7, 128) + bit(b6, 64) + bit(b5, 32) + bit(b4, 16) + low,
    ensures
        (byte & 0x80 != 0) == b7,
        (byte & 0x40 != 0) == b6,
        (byte & 0x20 != 0) == b5,
        (byte & 0x10 != 0) == b4,
        (byte & 0x30 != 0) == (b5 || b4),
        byte & 0x0f == low,
        byte & 0x08 == low & 0x08,
        byte & 0x04 == low & 0x04,
        byte & 0x02 == low & 0x02,
        byte & 0x07 == low & 0x07,
        byte & 0x1f == bit(b4, 16) + low,
        byte & 0x3f == bit(b5, 32) + bit(b4, 16) + low,
{
    let a7 = flag(b7, 128);
    let a6 = flag(b6, 64);
    let a5 = flag(b5, 32);
    let a4 = flag(b4, 16);
    assert(byte & 0x80 == a7 && byte & 0x40 == a6 && byte & 0x20 == a5 && byte & 0x10 == a4 && byte
        & 0x30 == a5 + a4 && byte & 0x0f == low && byte & 0x08 == low & 0x08 && byte & 0x04 == low
        & 0x04 && byte & 0x02 == low & 0x02 && byte & 0x07 == low & 0x07 && byte & 0x1f == a4 + low
        && byte & 0x3f == a5 + a4 + low) by (bit_vector)
        requires
            a7 == 0 || a7 == 128,
            a6 == 0 || a6 == 64,
            a5 == 0 || a5 == 32,
            a4 == 0 || a4 == 16,
            low < 16,
            byte == a7 + a6 + a5 + a4 + low,
    ;
}

/// The bits of a number that is made of a flag and a number of three bits, and of one that
/// is made of four flags.
proof fn lemma_low_flags(b3: bool, b2: bool, b1: bool, b0: bool, low: u8)
    requires
        low == bit(b3, 8) + bit(b2, 4) + bit(b1, 2) + bit(b0, 1),
    ensures
        (low & 0x08 != 0) == b3,
        (low & 0x04 != 0) == b2,
        (low & 0x02 != 0) == b1,
{
    let a3 = flag(b3, 8);
    let a2 = flag(b2, 4);
    let a1 = flag(b1, 2);
    let a0 = flag(b0, 1);
    assert(low & 0x08 == a3 && low & 0x04 == a2 && low & 0x02 == a1) by (bit_vector)
        requires
            a3 == 0 || a3 == 8,
            a2 == 0 || a2 == 4,
            a1 == 0 || a1 == 2,
            a0 == 0 || a0 == 1,
            low == a3 + a2 + a1 + a0,
    ;
}

/// The number of a picture: of seven bits in one byte, or of fifteen in two, the first of
/// which has its top bit set.
pub enum PictureId {
    Absent,
    Short(u8),
    Long(u16),
}

impl PictureId {
    pub open spec fn valid(self) -> bool {
        match self {
            PictureId::Absent => true,
            PictureId::Short(id) => id < 0x80,
            PictureId::Long(id) => id < 0x8000,
        }
    }

    pub open spec fn written(self) -> Seq<u8> {
        match self {
            PictureId::Absent => seq![],
            PictureId::Short(id) => seq![id],
            PictureId::Long(id) => seq![(128 + id / 256) as u8, (id % 256) as u8],
        }
    }
}

/// The optional part of a VP8 payload descriptor: the picture's number, the index of its
/// temporal level, and its temporal layer with the index of its key frame, one byte for
/// both.
pub struct Vp8Extension {
    pub picture: PictureId,
    pub level: Option<u8>,
    pub temporal_layer: bool,
    pub key_index: bool,
    pub layer_and_key: u8,
    pub reserved: u8,
}

/// A VP8 payload descriptor.
pub struct Vp8Descriptor {
    pub extension: Option<Vp8Extension>,
    pub reserved: bool,
    pub non_reference: bool,
    pub start_of_partition: bool,
    pub partition: u8,
}

/// A byte that may be there.
pub open spec fn optional_byte(byte: Option<u8>) -> Seq<u8> {
    match byte {
        Some(byte) => seq![byte],
        None => seq![],
    }
}

impl Vp8Extension {
    pub open spec fn written(self) -> Seq<u8> {
        seq![
            (bit(!(self.picture is Absent), 128) + bit(self.level is Some, 64) + bit(
                self.temporal_layer,
                32,
            ) + bit(self.key_index, 16) + self.reserved) as u8,
        ] + self.picture.written() + optional_byte(self.level) + (if self.temporal_layer
            || self.key_index {
            seq![self.layer_and_key]
        } else {
            seq![]
        })
    }
}

impl Vp8Descriptor {
    pub open spec fn valid(self) -> bool {
        &&& self.partition < 16
        &&& self.extension matches Some(extension) ==> extension.reserved < 16
            && extension.picture.valid()
    }

    pub open spec fn written(self) -> Seq<u8> {
        seq![
            (bit(self.extension is Some, 128) + bit(self.reserved, 64) + bit(
                self.non_reference,
                32,
            ) + bit(self.start_of_partition, 16) + self.partition) as u8,
        ] + match self.extension {
            Some(extension) => extension.written(),
            None => seq![],
        }
    }
}

/// Behind every VP8 payload descriptor, whatever optional parts it has, the content is
/// found as it was written. It starts a frame where the first partition starts, and
/// completes one where the packet is marked and there is any content.
#[verifier::rlimit(60)]
#[verifier::spinoff_prover]
pub proof fn law_vp8_content_is_found(
    descriptor: Vp8Descriptor,
    content: Seq<u8>,
    marker: bool,
    partial: bool,
)
    requires
        descriptor.valid(),
    ensures
        read_payload(Codec::Vp8, descriptor.written() + content, marker, partial) matches Ok(
            (boundary, body),
        ) && body.adds() == (content, None::<RtpError>) && boundary.starts_frame == (
        descriptor.start_of_partition && descriptor.partition == 0) && boundary.completes_frame
            == (marker && content.len() > 0),
{
    let payload = descriptor.written() + content;
    let len = descriptor.written().len();
    assert(payload[0] == descriptor.written()[0]);
    lemma_flags(
        descriptor.extension is Some,
        descriptor.reserved,
        descriptor.non_reference,
        descriptor.start_of_partition,
        descriptor.partition,
        payload[0],
    );
    assert(payload.subrange(len as int, payload.len() as int) =~= content);
    if let Some(extension) = descriptor.extension {
        assert(payload[1] == extension.written()[0]);
        lemma_flags(
            !(extension.picture is Absent),
            extension.level is Some,
            extension.temporal_layer,
            extension.key_index,
            extension.reserved,
            payload[1],
        );
        if !(extension.picture is Absent) {
            lemma_picture_id(extension.picture, payload[2]);
        }
    }
    assert(vp8_descriptor_of(payload) == Ok::<(int, bool), RtpError>(
        (len as int, descriptor.start_of_partition && descriptor.partition == 0),
    ));
}

/// A payload that ends before its VP8 descriptor does is refused, wherever it ends.
#[verifier::rlimit(60)]
#[verifier::spinoff_prover]
pub proof fn law_cut_vp8_descriptors_are_refused(
    descriptor: Vp8Descriptor,
    len: int,
    marker: bool,
    partial: bool,
)
    requires
        descriptor.valid(),
        0 <= len < descriptor.written().len(),
    ensures
        read_payload(Codec::Vp8, descriptor.written().take(len), marker, partial) is Err,
{
    let payload = descriptor.written().take(len);
    if len > 0 {
        assert(payload[0] == descriptor.written()[0]);
        lemma_flags(
            descriptor.extension is Some,
            descriptor.reserved,
            descriptor.non_reference,
            descriptor.start_of_partition,
            descriptor.partition,
            payload[0],
        );
        let extension = descriptor.extension->0;
        if len > 1 {
            assert(payload[1] == extension.written()[0]);
            lemma_flags(
                !(extension.picture is Absent),
                extension.level is Some,
                extension.temporal_layer,
                extension.key_index,
                extension.reserved,
                payload[1],
            );
            if len > 2 && !(extension.picture is Absent) {
                assert(payload[2] == extension.picture.written()[0]);
                lemma_picture_id(extension.picture, payload[2]);
            }
        }
        assert(vp8_descriptor_of(payload) is Err);
    }
}

/// The first byte of a picture's number says how long the number is.
proof fn lemma_picture_id(picture: PictureId, byte: u8)
    requires
        picture.valid(),
        !(picture is Absent),
        byte == picture.written()[0],
    ensures
        (byte & 0x80 != 0) == picture is Long,
        picture.written().len() == if picture is Long {
            2int
        } else {
            1
        },
{
    assert((byte & 0x80 != 0) == (byte >= 128)) by (bit_vector);
}

/// The references of a VP9 picture: distances of seven bits, each but the last marked as
/// followed by another.
pub open spec fn references_written(references: Seq<u8>) -> Seq<u8>
    decreases references.len(),
{
    if references.len() == 0 {
        seq![]
    } else {
        seq![(2 * references[0] + bit(references.len() > 1, 1)) as u8] + references_written(
            references.drop_first(),
        )
    }
}

/// A picture of a group: its layers, and up to three references.
pub struct GroupPicture {
    pub layers: u8,
    pub references: Seq<u8>,
}

pub open spec fn pictures_written(pictures: Seq<GroupPicture>) -> Seq<u8>
    decreases pictures.len(),
{
    if pictures.len() == 0 {
        seq![]
    } else {
        seq![(4 * pictures[0].layers + pictures[0].references.len()) as u8]
            + pictures[0].references + pictures_written(pictures.drop_first())
    }
}

/// How a VP9 stream is layered: how many spatial layers it has beyond the first, their sizes
/// of four bytes each, and the pictures of a group.
pub struct Scalability {
    pub more_layers: u8,
    pub sizes: Option<Seq<u8>>,
    pub pictures: Option<Seq<GroupPicture>>,
    pub reserved: u8,
    pub top: u8,
}

impl Scalability {
    pub open spec fn valid(self) -> bool {
        &&& self.more_layers < 8
        &&& self.top < 8
        &&& self.sizes matches Some(sizes) ==> sizes.len() == 4 * (self.more_layers + 1)
        &&& self.pictures matches Some(pictures) ==> pictures.len() < 256 && forall|i: int|
            0 <= i < pictures.len() ==> (#[trigger] pictures[i]).layers < 64
                && pictures[i].references.len() < 4
    }

    pub open spec fn written(self) -> Seq<u8> {
        seq![
            (32 * self.top + bit(self.sizes is Some, 16) + bit(self.pictures is Some, 8)
                + self.more_layers) as u8,
        ] + (match self.sizes {
            Some(sizes) => sizes,
            None => seq![],
        }) + match self.pictures {
            Some(pictures) => seq![pictures.len() as u8] + pictures_written(pictures),
            None => seq![],
        }
    }
}

/// A VP9 payload descriptor. In flexible mode a predicted picture lists its references, and
/// without it the layers come with the index of their level.
pub struct Vp9Descriptor {
    pub picture: PictureId,
    pub predicted: bool,
    pub layers: Option<(u8, u8)>,
    pub flexible: bool,
    pub begins: bool,
    pub ends: bool,
    pub references: Seq<u8>,
    pub scalability: Option<Scalability>,
    pub not_reference: bool,
}

impl Vp9Descriptor {
    pub open spec fn valid(self) -> bool {
        &&& self.picture.valid()
        &&& self.flexible && self.predicted ==> self.references.len() > 0 && forall|i: int|
            0 <= i < self.references.len() ==> #[trigger] self.references[i] < 128
        &&& self.scalability matches Some(scalability) ==> scalability.valid()
    }

    pub open spec fn layers_written(self) -> Seq<u8> {
        match self.layers {
            Some((layers, level)) => if self.flexible {
                seq![layers]
            } else {
                seq![layers, level]
            },
            None => seq![],
        }
    }

    pub open spec fn head(self) -> Seq<u8> {
        seq![
            (bit(!(self.picture is Absent), 128) + bit(self.predicted, 64) + bit(
                self.layers is Some,
                32,
            ) + bit(self.flexible, 16) + bit(self.begins, 8) + bit(self.ends, 4) + bit(
                self.scalability is Some,
                2,
            ) + bit(self.not_reference, 1)) as u8,
        ] + self.picture.written() + self.layers_written()
    }

    pub open spec fn references_part(self) -> Seq<u8> {
        if self.flexible && self.predicted {
            references_written(self.references)
        } else {
            seq![]
        }
    }

    pub open spec fn scalability_part(self) -> Seq<u8> {
        match self.scalability {
            Some(scalability) => scalability.written(),
            None => seq![],
        }
    }

    pub open spec fn written(self) -> Seq<u8> {
        self.head() + self.references_part() + self.scalability_part()
    }
}

proof fn lemma_references_end(before: Seq<u8>, references: Seq<u8>, rest: Seq<u8>)
    requires
        references.len() > 0,
        forall|i: int| 0 <= i < references.len() ==> #[trigger] references[i] < 128,
    ensures
        vp9_references_end(
            before + references_written(references) + rest,
            before.len() as int,
        ) == Some((before.len() + references_written(references).len()) as int),
    decreases references.len(),
{
    let payload = before + references_written(references) + rest;
    let others = references.drop_first();
    let first = payload[before.len() as int];
    assert(first == references_written(references)[0]);
    assert(references[0] < 128);
    lemma_bits(first);
    if references.len() > 1 {
        assert forall|i: int| 0 <= i < others.len() implies #[trigger] others[i] < 128 by {
            assert(others[i] == references[i + 1]);
        }
        lemma_references_end(before.push(first), others, rest);
        assert(payload =~= before.push(first) + references_written(others) + rest);
    } else {
        assert(references_written(others).len() == 0);
    }
}

proof fn lemma_pictures_end(before: Seq<u8>, pictures: Seq<GroupPicture>, rest: Seq<u8>)
    requires
        forall|i: int|
            0 <= i < pictures.len() ==> (#[trigger] pictures[i]).layers < 64
                && pictures[i].references.len() < 4,
    ensures
        vp9_pictures_end(
            before + pictures_written(pictures) + rest,
            before.len() as int,
            pictures.len(),
        ) == Some((before.len() + pictures_written(pictures).len()) as int),
    decreases pictures.len(),
{
    let payload = before + pictures_written(pictures) + rest;
    if pictures.len() > 0 {
        let others = pictures.drop_first();
        let picture = pictures[0];
        let first = payload[before.len() as int];
        assert(first == pictures_written(pictures)[0]);
        lemma_bits(first);
        assert(first % 4 == picture.references.len());
        assert forall|i: int| 0 <= i < others.len() implies (#[trigger] others[i]).layers < 64
            && others[i].references.len() < 4 by {
            assert(others[i] == pictures[i + 1]);
        }
        let passed = before + (seq![first] + picture.references);
        lemma_pictures_end(passed, others, rest);
        assert(payload =~= passed + pictures_written(others) + rest);
    }
}

proof fn lemma_scalability_end(before: Seq<u8>, scalability: Scalability, rest: Seq<u8>)
    requires
        scalability.valid(),
    ensures
        vp9_scalability_end(
            before + scalability.written() + rest,
            before.len() as int,
        ) == Ok::<int, RtpError>((before.len() + scalability.written().len()) as int),
{
    let payload = before + scalability.written() + rest;
    let header = payload[before.len() as int];
    assert(header == scalability.written()[0]);
    let top = scalability.top;
    let more = scalability.more_layers;
    let a4 = flag(scalability.sizes is Some, 16);
    let a3 = flag(scalability.pictures is Some, 8);
    assert(header & 0x10 == a4 && header & 0x08 == a3 && header & 0x07 == more) by (bit_vector)
        requires
            top < 8,
            more < 8,
            a4 == 0 || a4 == 16,
            a3 == 0 || a3 == 8,
            header == 32 * top + a4 + a3 + more,
    ;
    let sizes = match scalability.sizes {
        Some(sizes) => sizes,
        None => seq![],
    };
    if let Some(pictures) = scalability.pictures {
        let group = before.len() + 1 + sizes.len();
        assert(payload[group as int] == pictures.len() as u8);
        let passed = before + (seq![header] + sizes + seq![pictures.len() as u8]);
        lemma_pictures_end(passed, pictures, rest);
        assert(payload =~= passed + pictures_written(pictures) + rest);
    }
}

/// Behind every VP9 payload descriptor, whatever optional parts it has, the content is found
/// as it was written. It starts a frame where the descriptor says so, and completes one
/// where the descriptor says so or the packet is marked.
#[verifier::rlimit(60)]
#[verifier::spinoff_prover]
pub proof fn law_vp9_content_is_found(
    descriptor: Vp9Descriptor,
    content: Seq<u8>,
    marker: bool,
    partial: bool,
)
    requires
        descriptor.valid(),
    ensures
        read_payload(Codec::Vp9, descriptor.written() + content, marker, partial) matches Ok(
            (boundary, body),
        ) && body.adds() == (content, None::<RtpError>) && boundary.starts_frame
            == descriptor.begins && boundary.completes_frame == (marker || descriptor.ends),
{
    let payload = descriptor.written() + content;
    let len = descriptor.written().len();
    let flags = payload[0];
    lemma_vp9_head(descriptor, content);
    assert(payload.subrange(len as int, payload.len() as int) =~= content);
    let head = descriptor.head();
    let references = descriptor.references_part();
    let scalability = descriptor.scalability_part();
    let passed = head + references;
    assert(payload =~= head + references + (scalability + content));
    assert(payload =~= passed + scalability + content);
    if descriptor.flexible && descriptor.predicted {
        lemma_references_end(head, descriptor.references, scalability + content);
    }
    if let Some(parts) = descriptor.scalability {
        lemma_scalability_end(passed, parts, content);
    }
    assert(vp9_descriptor_len(payload) == Ok::<int, RtpError>(len as int));
}

proof fn lemma_vp9_head(descriptor: Vp9Descriptor, content: Seq<u8>)
    requires
        descriptor.valid(),
    ensures
        ({
            let payload = descriptor.written() + content;
            let flags = payload[0];
            &&& payload.len() > 0
            &&& (flags & 0x40 != 0) == descriptor.predicted
            &&& (flags & 0x10 != 0) == descriptor.flexible
            &&& (flags & 0x08 != 0) == descriptor.begins
            &&& (flags & 0x04 != 0) == descriptor.ends
            &&& (flags & 0x02 != 0) == descriptor.scalability is Some
            &&& vp9_layers_end(payload) == Ok::<int, RtpError>(descriptor.head().len() as int)
        }),
{
    let payload = descriptor.written() + content;
    let flags = payload[0];
    assert(flags == descriptor.written()[0]);
    let low: u8 = (bit(descriptor.begins, 8) + bit(descriptor.ends, 4) + bit(
        descriptor.scalability is Some,
        2,
    ) + bit(descriptor.not_reference, 1)) as u8;
    lemma_flags(
        !(descriptor.picture is Absent),
        descriptor.predicted,
        descriptor.layers is Some,
        descriptor.flexible,
        low,
        flags,
    );
    lemma_low_flags(
        descriptor.begins,
        descriptor.ends,
        descriptor.scalability is Some,
        descriptor.not_reference,
        low,
    );
    if !(descriptor.picture is Absent) {
        assert(payload[1] == descriptor.picture.written()[0]);
        lemma_picture_id(descriptor.picture, payload[1]);
    }
}

/// NAL units as they go into a frame: each behind three zero bytes and a one.
pub open spec fn stream_of(units: Seq<Seq<u8>>) -> Seq<u8>
    decreases units.len(),
{
    if units.len() == 0 {
        seq![]
    } else {
        seq![0u8, 0u8, 0u8, 1u8] + units[0] + stream_of(units.drop_first())
    }
}

/// NAL units as they stand in an aggregation payload: each behind its length in two bytes.
pub open spec fn units_with_lengths(units: Seq<Seq<u8>>) -> Seq<u8>
    decreases units.len(),
{
    if units.len() == 0 {
        seq![]
    } else {
        seq![(units[0].len() / 256) as u8, (units[0].len() % 256) as u8] + units[0]
            + units_with_lengths(units.drop_first())
    }
}

proof fn lemma_aggregation(
    codec: Codec,
    before: Seq<u8>,
    units: Seq<Seq<u8>>,
    tail: Seq<u8>,
    fault: Option<RtpError>,
)
    requires
        forall|i: int| 0 <= i < units.len() ==> (#[trigger] units[i]).len() < 0x1_0000,
        aggregation_bytes(
            codec,
            before + units_with_lengths(units) + tail,
            (before.len() + units_with_lengths(units).len()) as int,
        ) == (Seq::<u8>::empty(), fault),
    ensures
        aggregation_bytes(
            codec,
            before + units_with_lengths(units) + tail,
            before.len() as int,
        ) == (stream_of(units), fault),
    decreases units.len(),
{
    let data = before + units_with_lengths(units) + tail;
    let at = before.len() as int;
    if units.len() > 0 {
        let unit = units[0];
        let rest = units.drop_first();
        assert forall|i: int| 0 <= i < rest.len() implies (#[trigger] rest[i]).len()
            < 0x1_0000 by {
            assert(rest[i] == units[i + 1]);
        }
        let len = seq![(unit.len() / 256) as u8, (unit.len() % 256) as u8];
        let passed = before + (len + unit);
        assert(data =~= passed + units_with_lengths(rest) + tail);
        assert(data[at] == len[0] && data[at + 1] == len[1]);
        assert(data.subrange(at + 2, at + 2 + unit.len()) =~= unit);
        lemma_aggregation(codec, passed, rest, tail, fault);
        assert(stream_of(units) =~= seq![0u8, 0u8, 0u8, 1u8] + unit + stream_of(rest));
    }
}

/// The NAL units of an H.264 aggregation payload, or of an H.265 one, come out in order, each
/// behind a start code, whatever else the payload's header says. The payload starts a frame
/// where none is under way, and completes one where its packet is marked.
#[verifier::rlimit(60)]
#[verifier::spinoff_prover]
pub proof fn law_aggregated_units_come_apart(
    h265: bool,
    top: u8,
    low: u8,
    second: u8,
    units: Seq<Seq<u8>>,
    marker: bool,
    partial: bool,
)
    requires
        forall|i: int| 0 <= i < units.len() ==> (#[trigger] units[i]).len() < 0x1_0000,
        !h265 ==> top < 8,
        h265 ==> top < 2 && low < 2,
    ensures
        ({
            let header: Seq<u8> = if h265 {
                seq![(128 * top + 2 * 48 + low) as u8, second]
            } else {
                seq![(32 * top + 24) as u8]
            };
            let codec = if h265 {
                Codec::H265
            } else {
                Codec::H264
            };
            read_payload(codec, header + units_with_lengths(units), marker, partial) matches Ok(
                (boundary, body),
            ) && body.adds() == (stream_of(units), None::<RtpError>) && boundary.starts_frame
                == !partial && boundary.completes_frame == marker
        }),
{
    let header: Seq<u8> = if h265 {
        seq![(128 * top + 2 * 48 + low) as u8, second]
    } else {
        seq![(32 * top + 24) as u8]
    };
    let codec = if h265 {
        Codec::H265
    } else {
        Codec::H264
    };
    let payload = header + units_with_lengths(units);
    lemma_bits(payload[0]);
    assert(payload.subrange(header.len() as int, payload.len() as int) =~= Seq::<u8>::empty()
        + units_with_lengths(units));
    let data = payload.subrange(header.len() as int, payload.len() as int);
    assert(Seq::<u8>::empty() + units_with_lengths(units) + Seq::<u8>::empty() =~= data);
    lemma_aggregation(codec, Seq::<u8>::empty(), units, Seq::<u8>::empty(), None);
}

/// Where an aggregation payload breaks off in a unit, or in its length, the units before it
/// come out, and the payload is found at fault.
#[verifier::rlimit(60)]
#[verifier::spinoff_prover]
pub proof fn law_broken_aggregations_are_found(
    codec: Codec,
    units: Seq<Seq<u8>>,
    len: u16,
    rest: Seq<u8>,
)
    requires
        forall|i: int| 0 <= i < units.len() ==> (#[trigger] units[i]).len() < 0x1_0000,
        rest.len() < len,
    ensures
        ({
            let cut = seq![(len / 256) as u8, (len % 256) as u8] + rest;
            let (added, fault) = PayloadBody::Aggregation(
                codec,
                units_with_lengths(units) + cut,
            ).adds();
            added == stream_of(units) && fault is Some
        }),
        ({
            let (added, fault) = PayloadBody::Aggregation(
                codec,
                units_with_lengths(units) + seq![(len / 256) as u8],
            ).adds();
            added == stream_of(units) && fault is Some
        }),
{
    let whole = units_with_lengths(units);
    let at = whole.len() as int;
    let cut = seq![(len / 256) as u8, (len % 256) as u8] + rest;
    let short = seq![(len / 256) as u8];
    assert(Seq::<u8>::empty() + whole + cut =~= whole + cut);
    assert(Seq::<u8>::empty() + whole + short =~= whole + short);
    assert((whole + cut)[at] == cut[0] && (whole + cut)[at + 1] == cut[1]);
    lemma_aggregation(
        codec,
        Seq::<u8>::empty(),
        units,
        cut,
        aggregation_bytes(codec, whole + cut, at).1,
    );
    lemma_aggregation(
        codec,
        Seq::<u8>::empty(),
        units,
        short,
        aggregation_bytes(codec, whole + short, at).1,
    );
}

/// A payload whose first byte names a NAL unit of its own goes into the frame whole, behind a
/// start code; the types of H.264 are 1 to 23, those of H.265 are 0 to 47. A payload of a
/// type that is none of these, no aggregation and no fragment is refused.
#[verifier::rlimit(60)]
#[verifier::spinoff_prover]
pub proof fn law_single_units_go_in_whole(payload: Seq<u8>, marker: bool, partial: bool)
    requires
        payload.len() > 0,
    ensures
        ({
            let kind = payload[0] % 32;
            let read = read_payload(Codec::H264, payload, marker, partial);
            &&& 1 <= kind <= 23 ==> (read matches Ok((boundary, body)) && body.adds() == (
                seq![0u8, 0u8, 0u8, 1u8] + payload,
                None::<RtpError>,
            ) && boundary.starts_frame == !partial && boundary.completes_frame == marker)
            &&& kind == 0 || 25 <= kind <= 27 || 29 <= kind ==> read is Err
        }),
        ({
            let kind = payload[0] / 2 % 64;
            let read = read_payload(Codec::H265, payload, marker, partial);
            &&& payload.len() < 2 ==> read is Err
            &&& payload.len() >= 2 && kind <= 47 ==> (read matches Ok((boundary, body))
                && body.adds() == (seq![0u8, 0u8, 0u8, 1u8] + payload, None::<RtpError>)
                && boundary.starts_frame == !partial && boundary.completes_frame == marker)
            &&& 50 <= kind ==> read is Err
        }),
{
    lemma_bits(payload[0]);
}

/// A fragment of an H.264 NAL unit: the first one brings the unit's header back, behind a
/// start code, and starts a frame; the others go on with it; and the last one completes the
/// frame where its packet is marked. The header is made of the top three bits of the
/// payload's first byte and the type in its second.
#[verifier::rlimit(60)]
#[verifier::spinoff_prover]
pub proof fn law_h264_fragments_join(
    top: u8,
    kind: u8,
    first: bool,
    last: bool,
    unused: bool,
    data: Seq<u8>,
    marker: bool,
    partial: bool,
)
    requires
        top < 8,
        kind < 32,
        data.len() > 0,
    ensures
        ({
            let payload = seq![
                (32 * top + 28) as u8,
                (bit(first, 128) + bit(last, 64) + bit(unused, 32) + kind) as u8,
            ] + data;
            read_payload(Codec::H264, payload, marker, partial) matches Ok((boundary, body))
                && body.adds() == (
                if first {
                    seq![0u8, 0u8, 0u8, 1u8, (32 * top + kind) as u8] + data
                } else {
                    data
                },
                None::<RtpError>,
            ) && boundary.starts_frame == first && boundary.completes_frame == (marker && last)
        }),
{
    let b0: u8 = (32 * top + 28) as u8;
    let b1: u8 = (bit(first, 128) + bit(last, 64) + bit(unused, 32) + kind) as u8;
    let payload = seq![b0, b1] + data;
    let a7 = flag(first, 128);
    let a6 = flag(last, 64);
    let a5 = flag(unused, 32);
    assert(payload[0] == b0 && payload[1] == b1);
    assert(payload.subrange(2, payload.len() as int) =~= data);
    assert(b0 & 0x1f == 28 && b1 & 0x80 == a7 && b1 & 0x40 == a6 && ((b0 & 0xe0u8) | (b1 & 0x1fu8))
        == 32 * top + kind) by (bit_vector)
        requires
            top < 8,
            kind < 32,
            a7 == 0 || a7 == 128,
            a6 == 0 || a6 == 64,
            a5 == 0 || a5 == 32,
            b0 == 32 * top + 28,
            b1 == a7 + a6 + a5 + kind,
    ;
    assert(fragment_of(H26x::H264, payload)->Ok_0->header =~= seq![(32 * top + kind) as u8]);
    let body = fragment_of(H26x::H264, payload)->Ok_0;
    if first {
        assert(body.adds().0 =~= seq![0u8, 0u8, 0u8, 1u8, (32 * top + kind) as u8] + data);
    }
}

/// A fragment of an H.265 NAL unit, in the same way: the header is made of what stands
/// around the type in the payload's first two bytes, and of the type in its third.
#[verifier::rlimit(60)]
#[verifier::spinoff_prover]
pub proof fn law_h265_fragments_join(
    top: u8,
    low: u8,
    second: u8,
    kind: u8,
    first: bool,
    last: bool,
    data: Seq<u8>,
    marker: bool,
    partial: bool,
)
    requires
        top < 2,
        low < 2,
        kind < 64,
        data.len() > 0,
    ensures
        ({
            let payload = seq![
                (128 * top + 2 * 49 + low) as u8,
                second,
                (bit(first, 128) + bit(last, 64) + kind) as u8,
            ] + data;
            read_payload(Codec::H265, payload, marker, partial) matches Ok((boundary, body))
                && body.adds() == (
                if first {
                    seq![0u8, 0u8, 0u8, 1u8, (128 * top + 2 * kind + low) as u8, second] + data
                } else {
                    data
                },
                None::<RtpError>,
            ) && boundary.starts_frame == first && boundary.completes_frame == (marker && last)
        }),
{
    let b0: u8 = (128 * top + 2 * 49 + low) as u8;
    let b2: u8 = (bit(first, 128) + bit(last, 64) + kind) as u8;
    let payload = seq![b0, second, b2] + data;
    let a7 = flag(first, 128);
    let a6 = flag(last, 64);
    assert(payload[0] == b0 && payload[1] == second && payload[2] == b2);
    assert(payload.subrange(3, payload.len() as int) =~= data);
    let header: u8 = (128 * top + 2 * kind + low) as u8;
    assert((b0 >> 1) & 0x3f == 49 && b2 & 0x80 == a7 && b2 & 0x40 == a6 && ((b0 & 0x81u8) | ((b2
        & 0x3fu8) << 1)) == header) by (bit_vector)
        requires
            top < 2,
            low < 2,
            kind < 64,
            a7 == 0 || a7 == 128,
            a6 == 0 || a6 == 64,
            b0 == 128 * top + 98 + low,
            b2 == a7 + a6 + kind,
            header == 128 * top + 2 * kind + low,
    ;
    let body = fragment_of(H26x::H265, payload)->Ok_0;
    assert(body->header =~= seq![header, second]);
    if first {
        assert(body.adds().0 =~= seq![0u8, 0u8, 0u8, 1u8, header, second] + data);
    }
}

/// AV1 elements one after the other.
pub open spec fn elements_joined(elements: Seq<Seq<u8>>) -> Seq<u8>
    decreases elements.len(),
{
    if elements.len() == 0 {
        seq![]
    } else {
        elements[0] + elements_joined(elements.drop_first())
    }
}

/// AV1 elements as they stand in a payload: each behind its length, but for the last where
/// the payload says how many there are.
pub open spec fn elements_written(elements: Seq<Seq<u8>>, counted: bool) -> Seq<u8>
    decreases elements.len(),
{
    if elements.len() == 0 {
        seq![]
    } else if counted && elements.len() == 1 {
        elements[0]
    } else {
        uleb128_bytes(elements[0].len()) + elements[0] + elements_written(
            elements.drop_first(),
            counted,
        )
    }
}

proof fn lemma_elements(count: u8, before: Seq<u8>, elements: Seq<Seq<u8>>, seen: nat)
    requires
        count != 0 ==> seen + elements.len() == count,
        count != 0 ==> elements.len() > 0 && elements.last().len() > 0,
        forall|i: int| 0 <= i < elements.len() ==> (#[trigger] elements[i]).len() <= usize::MAX,
    ensures
        element_bytes(
            count,
            before + elements_written(elements, count != 0),
            before.len() as int,
            seen,
        ) == (elements_joined(elements), None::<RtpError>),
    decreases elements.len(),
{
    let data = before + elements_written(elements, count != 0);
    let at = before.len() as int;
    if elements.len() == 0 {
    } else if count != 0 && elements.len() == 1 {
        assert(data.subrange(at, data.len() as int) =~= elements[0]);
        assert(elements_joined(elements.drop_first()) =~= seq![]);
        assert(elements_joined(elements) =~= elements[0]);
    } else {
        let element = elements[0];
        let rest = elements.drop_first();
        let len = uleb128_bytes(element.len());
        let tail = element + elements_written(rest, count != 0);
        law_uleb128_is_read_back(element.len(), tail);
        assert(data.subrange(at, data.len() as int) =~= len + tail);
        let start = at + len.len();
        assert(data.subrange(start, start + element.len()) =~= element);
        let passed = before + (len + element);
        assert(data =~= passed + elements_written(rest, count != 0));
        assert forall|i: int| 0 <= i < rest.len() implies (#[trigger] rest[i]).len()
            <= usize::MAX by {
            assert(rest[i] == elements[i + 1]);
        }
        if count != 0 {
            assert(rest.last() == elements.last());
        }
        lemma_elements(count, passed, rest, seen + 1);
    }
}

/// The elements of an AV1 payload come out in order, whether the payload says how many there
/// are (one to three, the last without its length) or not (all with their lengths). It
/// starts a frame where none is under way and its first element is no continuation, and
/// completes one where its packet is marked.
#[verifier::rlimit(60)]
#[verifier::spinoff_prover]
pub proof fn law_av1_elements_come_out(
    continues: bool,
    continued: bool,
    counted: bool,
    low: u8,
    elements: Seq<Seq<u8>>,
    marker: bool,
    partial: bool,
)
    requires
        low < 16,
        counted ==> 1 <= elements.len() <= 3 && elements.last().len() > 0,
        forall|i: int| 0 <= i < elements.len() ==> (#[trigger] elements[i]).len() <= usize::MAX,
    ensures
        ({
            let header = (bit(continues, 128) + bit(continued, 64) + (if counted {
                16 * elements.len() as int
            } else {
                0
            }) + low) as u8;
            read_payload(
                Codec::Av1,
                seq![header] + elements_written(elements, counted),
                marker,
                partial,
            ) matches Ok((boundary, body)) && body.adds() == (
                elements_joined(elements),
                None::<RtpError>,
            ) && boundary.starts_frame == (!partial && !continues) && boundary.completes_frame
                == marker
        }),
{
    let header: u8 = (bit(continues, 128) + bit(continued, 64) + (if counted {
        16 * elements.len() as int
    } else {
        0
    }) + low) as u8;
    let payload = seq![header] + elements_written(elements, counted);
    let count: u8 = if counted {
        elements.len() as u8
    } else {
        0
    };
    let a7 = flag(continues, 128);
    let a6 = flag(continued, 64);
    assert(header & 0x80 == a7 && (header >> 4) & 0x03 == count) by (bit_vector)
        requires
            a7 == 0 || a7 == 128,
            a6 == 0 || a6 == 64,
            count <= 3,
            low < 16,
            header == a7 + a6 + 16 * count + low,
    ;
    assert(payload[0] == header);
    let data = payload.subrange(1, payload.len() as int);
    assert(data =~= Seq::<u8>::empty() + elements_written(elements, counted));
    lemma_elements(count, Seq::<u8>::empty(), elements, 0);
    if count == 1 {
        assert(elements_joined(elements.drop_first()) =~= seq![]);
        assert(elements_joined(elements) =~= elements[0]);
        assert(data =~= elements[0]);
    }
}

/// A frame of Opus is a payload, as it is: each starts a frame and completes it.
#[verifier::rlimit(60)]
#[verifier::spinoff_prover]
pub proof fn law_opus_payloads_are_frames(payload: Seq<u8>, marker: bool, partial: bool)
    ensures
        read_payload(Codec::Opus, payload, marker, partial) matches Ok((boundary, body))
            && body.adds() == (payload, None::<RtpError>) && boundary.starts_frame
            && boundary.completes_frame,
{
}

} // verus!
