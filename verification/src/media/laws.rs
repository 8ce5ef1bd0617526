//! What holds of packets on the wire, byte by byte, and of frames across packets.

use super::assembler::{assembled, FrameParts};
use super::crypto::{
    aes256_gcm_opened, aes256_gcm_sealed, opened_packet, sealed_packet, stripped,
    xchacha20_poly1305_opened, xchacha20_poly1305_sealed, OutboundEncryptParams,
};
use super::header::{RtpHeader, RtpHeaderFields};
use super::outbound::{in_turn, ticks, OutboundRtpState};
use super::raw::{rtcp_header_of, RawUdpPacketInfo};
use super::FrameRaw;
use crate::codec::{Codec, MediaType};
use crate::codecs::clock_rate;
use crate::errors::RtpError;
use crate::rtp::{payload_type_is_its_number, payload_type_of_number};
use crate::rtp_payload::depacketize::read_payload;
use crate::state::{EncryptionMode, PendingMediaPacket};
use crate::time::Duration;
use vstd::prelude::*;

verus! {

/// A number of two bytes, the high one first.
pub open spec fn two_bytes(number: int) -> Seq<u8> {
    seq![(number / 256) as u8, (number % 256) as u8]
}

/// A number of four bytes, the highest first.
pub open spec fn four_bytes(number: int) -> Seq<u8> {
    two_bytes(number / 65_536) + two_bytes(number % 65_536)
}

/// Sources that contributed, four bytes each.
pub open spec fn sources_bytes(sources: Seq<u32>) -> Seq<u8>
    decreases sources.len(),
{
    if sources.len() == 0 {
        seq![]
    } else {
        sources_bytes(sources.drop_last()) + four_bytes(sources.last() as int)
    }
}

proof fn lemma_sources_len(sources: Seq<u32>)
    ensures
        sources_bytes(sources).len() == 4 * sources.len(),
    decreases sources.len(),
{
    if sources.len() > 0 {
        lemma_sources_len(sources.drop_last());
    }
}

/// An RTP header with all that it may have: contributing sources, and an extension of a
/// profile with content in words of four bytes.
pub struct WholeHeader {
    pub padding: bool,
    pub marker: bool,
    pub payload_type: u8,
    pub seq: u16,
    pub timestamp: u32,
    pub ssrc: u32,
    pub sources: Seq<u32>,
    pub extension: Option<(u16, Seq<u8>)>,
}

impl WholeHeader {
    pub open spec fn valid(self) -> bool {
        &&& self.payload_type < 128
        &&& self.sources.len() < 16
        &&& self.extension matches Some((_, content)) ==> content.len() as int % 4 == 0
            && content.len() < 4 * 65_536
    }

    /// The part that is sent in the clear.
    pub open spec fn clear(self) -> Seq<u8> {
        seq![
            (128 + (if self.padding {
                32int
            } else {
                0
            }) + (if self.extension is Some {
                16int
            } else {
                0
            }) + self.sources.len()) as u8,
            (self.payload_type + if self.marker {
                128int
            } else {
                0
            }) as u8,
        ] + two_bytes(self.seq as int) + four_bytes(self.timestamp as int) + four_bytes(
            self.ssrc as int,
        ) + sources_bytes(self.sources) + match self.extension {
            Some((profile, content)) => two_bytes(profile as int) + two_bytes(
                content.len() as int / 4,
            ),
            None => seq![],
        }
    }

    pub open spec fn written(self) -> Seq<u8> {
        self.clear() + match self.extension {
            Some((_, content)) => content,
            None => seq![],
        }
    }
}

/// Every header is read as it was written, whatever follows it: all its numbers and flags,
/// its length, and where the part in the clear ends.
#[verifier::rlimit(60)]
#[verifier::spinoff_prover]
pub proof fn law_whole_headers_are_read(header: WholeHeader, rest: Seq<u8>)
    requires
        header.valid(),
    ensures
        RtpHeader::read(header.written() + rest) matches Ok(read) && read.version == 2
            && read.padding == header.padding && read.extension == header.extension is Some
            && read.marker == header.marker && read.payload_type@ == header.payload_type
            && read.seq == header.seq && read.timestamp == header.timestamp && read.ssrc
            == header.ssrc && read.header_len == header.written().len()
            && read.encrypted_body_offset == header.clear().len(),
{
    broadcast use payload_type_is_its_number, payload_type_of_number;

    let bytes = header.written() + rest;
    lemma_sources_len(header.sources);
    lemma_fixed_bytes(header, rest);
    lemma_first_byte(header, bytes[0]);
    assert((bytes[1] >= 128) == header.marker && bytes[1] % 128 == header.payload_type);
    if let Some((profile, content)) = header.extension {
        lemma_extension_words(header, rest);
    }
}

proof fn lemma_first_byte(header: WholeHeader, first: u8)
    requires
        header.valid(),
        first == header.clear()[0],
    ensures
        first / 64 == 2,
        (first / 32 % 2 == 1) == header.padding,
        (first / 16 % 2 == 1) == header.extension is Some,
        first % 16 == header.sources.len(),
{
    let count = header.sources.len() as u8;
    assert(first == 128 + (if header.padding {
        32int
    } else {
        0
    }) + (if header.extension is Some {
        16int
    } else {
        0
    }) + count);
}

proof fn lemma_fixed_bytes(header: WholeHeader, rest: Seq<u8>)
    ensures
        ({
            let bytes = header.written() + rest;
            &&& bytes.len() >= 12
            &&& bytes[0] == header.clear()[0]
            &&& bytes[1] == (header.payload_type + if header.marker {
                128int
            } else {
                0
            }) as u8
            &&& crate::bytes::be16(bytes[2], bytes[3]) == header.seq
            &&& crate::bytes::be32(bytes[4], bytes[5], bytes[6], bytes[7]) == header.timestamp
            &&& crate::bytes::be32(bytes[8], bytes[9], bytes[10], bytes[11]) == header.ssrc
        }),
{
    let bytes = header.written() + rest;
    let clear = header.clear();
    let time = four_bytes(header.timestamp as int);
    let source = four_bytes(header.ssrc as int);
    assert(clear[4] == time[0] && clear[5] == time[1] && clear[6] == time[2] && clear[7]
        == time[3]);
    assert(clear[8] == source[0] && clear[9] == source[1] && clear[10] == source[2] && clear[11]
        == source[3]);
    assert forall|i: int| 0 <= i < 12 implies #[trigger] bytes[i] == clear[i] by {
    }
}

proof fn lemma_extension_words(header: WholeHeader, rest: Seq<u8>)
    requires
        header.valid(),
        header.extension is Some,
    ensures
        ({
            let bytes = header.written() + rest;
            let at = 12 + 4 * header.sources.len() as int;
            let (_, content) = header.extension->0;
            &&& header.clear().len() == at + 4
            &&& header.written().len() == at + 4 + content.len()
            &&& 4 * crate::bytes::be16(bytes[at + 2], bytes[at + 3]) == content.len()
        }),
{
    lemma_sources_len(header.sources);
    let bytes = header.written() + rest;
    let at = 12 + 4 * header.sources.len() as int;
    let (profile, content) = header.extension->0;
    let words = two_bytes(content.len() as int / 4);
    let clear = header.clear();
    assert(clear[at + 2] == words[0] && clear[at + 3] == words[1]);
    assert(bytes[at + 2] == clear[at + 2] && bytes[at + 3] == clear[at + 3]);
}

/// A header that is cut short is refused, wherever it is cut.
#[verifier::rlimit(60)]
#[verifier::spinoff_prover]
pub proof fn law_cut_headers_are_refused(header: WholeHeader, len: int)
    requires
        header.valid(),
        0 <= len < header.written().len(),
    ensures
        RtpHeader::read(header.written().take(len)) is Err,
{
    let whole = header.written();
    let bytes = whole.take(len);
    lemma_sources_len(header.sources);
    if len >= 12 {
        assert(bytes[0] == whole[0]);
        assert(whole[0] == header.clear()[0]);
        assert(bytes[0] % 16 == header.sources.len());
        if let Some((profile, content)) = header.extension {
            let at = 12 + 4 * header.sources.len() as int;
            let words = two_bytes(content.len() as int / 4);
            assert(header.clear().len() == at + 4);
            if len >= at + 4 {
                assert(bytes[at + 2] == header.clear()[at + 2]);
                assert(bytes[at + 3] == header.clear()[at + 3]);
                assert(header.clear()[at + 2] == words[0]);
                assert(header.clear()[at + 3] == words[1]);
            }
        }
    }
}

/// A version other than 2 is refused.
#[verifier::rlimit(60)]
#[verifier::spinoff_prover]
pub proof fn law_other_versions_are_refused(bytes: Seq<u8>)
    requires
        bytes.len() > 0,
        bytes[0] / 64 != 2,
    ensures
        RtpHeader::read(bytes) is Err,
{
}

proof fn lemma_numbers_by_place(short: u16, long: u32)
    ensures
        two_bytes(short as int) == crate::bytes::be16_bytes(short),
        four_bytes(long as int) == crate::bytes::be32_bytes(long),
{
    assert(two_bytes(short as int) =~= crate::bytes::be16_bytes(short));
    assert(four_bytes(long as int) =~= crate::bytes::be32_bytes(long));
}

/// What a sender writes is a header of the second version without padding, sources or
/// extension: 128, the type with the marker, the number, the time, the source.
#[verifier::rlimit(60)]
#[verifier::spinoff_prover]
pub proof fn law_sent_headers_are_plain(fields: RtpHeaderFields, marker: bool)
    requires
        fields.payload_type@ < 128,
    ensures
        fields.bytes(marker) == (WholeHeader {
            padding: false,
            marker,
            payload_type: fields.payload_type@,
            seq: fields.seq,
            timestamp: fields.timestamp,
            ssrc: fields.ssrc,
            sources: seq![],
            extension: None,
        }).written(),
{
    let whole = WholeHeader {
        padding: false,
        marker,
        payload_type: fields.payload_type@,
        seq: fields.seq,
        timestamp: fields.timestamp,
        ssrc: fields.ssrc,
        sources: seq![],
        extension: None,
    };
    assert(sources_bytes(whole.sources) =~= seq![]);
    lemma_numbers_by_place(fields.seq, fields.timestamp);
    lemma_numbers_by_place(fields.seq, fields.ssrc);
    let first = seq![0x80u8, crate::rtp::marked(fields.payload_type@, marker)];
    assert(whole.written() =~= first + two_bytes(fields.seq as int) + four_bytes(
        fields.timestamp as int,
    ) + four_bytes(fields.ssrc as int));
}

/// A datagram is RTCP where its second byte is 192 to 223, and its header is read by its
/// bits: two of version, one of padding, five of a count; then the type, the length and the
/// source.
#[verifier::rlimit(60)]
#[verifier::spinoff_prover]
pub proof fn law_rtcp_headers_are_read(
    version: u8,
    padding: bool,
    count: u8,
    kind: u8,
    words: u16,
    ssrc: u32,
    rest: Seq<u8>,
)
    requires
        version < 4,
        count < 32,
    ensures
        ({
            let first = (64 * version + (if padding {
                32int
            } else {
                0
            }) + count) as u8;
            let bytes = seq![first, kind] + two_bytes(words as int) + four_bytes(ssrc as int)
                + rest;
            let header = rtcp_header_of(bytes);
            &&& RawUdpPacketInfo::of(bytes).rtcp() == (192 <= kind <= 223)
            &&& header.version == version
            &&& header.padding == padding
            &&& header.report_count == count
            &&& header.packet_type == kind
            &&& header.length_words == words
            &&& header.ssrc == Some(ssrc)
        }),
{
    let first: u8 = (64 * version + (if padding {
        32int
    } else {
        0
    }) + count) as u8;
    let source = four_bytes(ssrc as int);
    let bytes = seq![first, kind] + two_bytes(words as int) + source + rest;
    assert(bytes[0] == first && bytes[1] == kind);
    assert(bytes[2] == words / 256 && bytes[3] == words % 256);
    assert(bytes[4] == source[0] && bytes[5] == source[1] && bytes[6] == source[2] && bytes[7]
        == source[3]);
}

/// What is known of a datagram is what its header says, once it is long enough for one.
#[verifier::rlimit(60)]
#[verifier::spinoff_prover]
pub proof fn law_datagrams_are_known_by_their_headers(header: WholeHeader, rest: Seq<u8>)
    requires
        header.valid(),
    ensures
        ({
            let info = RawUdpPacketInfo::of(header.written() + rest);
            &&& info.version == Some(2u8)
            &&& info.raw_payload_type == Some(header.clear()[1])
            &&& info.payload_type matches Some(kind)
            &&& kind@ == header.payload_type
            &&& info.seq == Some(header.seq)
            &&& info.timestamp == Some(header.timestamp)
            &&& info.ssrc == Some(header.ssrc)
        }),
{
    broadcast use payload_type_is_its_number, payload_type_of_number;

    law_whole_headers_are_read(header, rest);
    let bytes = header.written() + rest;
    assert(bytes[1] == header.clear()[1]);
}

/// Ticks are time: as many as whole ones fit in the span at that rate, but at least one, and
/// as many as can be counted at most.
#[verifier::rlimit(60)]
#[verifier::spinoff_prover]
pub proof fn law_ticks_measure_time(rate: u32, nanos: u128)
    ensures
        ({
            let counted = ticks(rate, nanos) as int;
            &&& 1 <= counted <= u32::MAX
            &&& counted > 1 ==> counted * 1_000_000_000 <= rate * nanos
            &&& counted < u32::MAX ==> rate * nanos < (counted + 1) * 1_000_000_000
        }),
        clock_rate(Codec::Opus) == 48_000,
        ticks(clock_rate(Codec::Opus), 20_000_000) == 960,
{
    assert(0 <= rate * nanos) by (nonlinear_arith);
    assert(48_000 * 20_000_000 == 960_000_000_000) by (nonlinear_arith);
}

/// Audio is timed at 48 kHz and video at 90 kHz.
#[verifier::rlimit(60)]
#[verifier::spinoff_prover]
pub proof fn law_clocks_by_media(codec: Codec)
    ensures
        codec == Codec::Opus ==> clock_rate(codec) == 48_000,
        codec != Codec::Opus ==> clock_rate(codec) == 90_000,
        codec.media() == (if codec == Codec::Opus {
            MediaType::Audio
        } else {
            MediaType::Video
        }),
{
}

/// The timestamp of a stream moves by the frames that are behind: with every packet of
/// audio, and with every marked packet of video; within a frame of video it stays.
#[verifier::rlimit(60)]
#[verifier::spinoff_prover]
pub proof fn law_timestamps_count_frames(
    states: Seq<OutboundRtpState>,
    markers: Seq<bool>,
    duration: Duration,
    i: int,
)
    requires
        in_turn(states, markers, duration),
        0 <= i < states.len(),
    ensures
        ({
            let audio = states[0].bound_codec() == Codec::Opus;
            let rate: u32 = if audio {
                48_000
            } else {
                90_000
            };
            let frames = markers.take(i).filter(|marker: bool| audio || marker).len();
            &&& states[i].next_timestamp() == (states[0].next_timestamp() + frames * ticks(
                rate,
                duration.nanos,
            )) % 0x1_0000_0000
            &&& states[i].bound_codec() == states[0].bound_codec()
        }),
    decreases i,
{
    let audio = states[0].bound_codec() == Codec::Opus;
    let rate: u32 = if audio {
        48_000
    } else {
        90_000
    };
    let wanted = |marker: bool| audio || marker;
    let step = ticks(rate, duration.nanos) as int;
    if i == 0 {
        assert(markers.take(0) =~= seq![]);
        reveal(Seq::filter);
        assert(markers.take(0).filter(wanted).len() == 0);
        assert(0 * step == 0);
    } else {
        law_timestamps_count_frames(states, markers, duration, i - 1);
        let marker = markers[i - 1];
        assert(states[i - 1].moved_on(states[i], marker, duration));
        let before = markers.take(i - 1);
        let now = markers.take(i);
        assert(now.drop_last() =~= before);
        assert(now.last() == marker);
        reveal(Seq::filter);
        let frames = before.filter(wanted).len() as int;
        assert(now.filter(wanted).len() == frames + if wanted(marker) {
            1int
        } else {
            0
        });
        assert((frames + 1) * step == frames * step + step) by (nonlinear_arith);
    }
}

/// Zeros.
pub open spec fn zeros(count: nat) -> Seq<u8> {
    Seq::new(count, |i: int| 0u8)
}

/// A sealed packet is its header, in the clear; what the cipher makes of the frame, its tag
/// behind it; and the number that is used once, in its last four bytes. The cipher gets the
/// key, that number with zeros behind it, and the header to vouch for.
#[verifier::rlimit(60)]
#[verifier::spinoff_prover]
pub proof fn law_sealed_packets_on_the_wire(
    mode: EncryptionMode,
    key: Seq<u8>,
    params: OutboundEncryptParams,
    frame: Seq<u8>,
)
    ensures
        ({
            let header = params.header.bytes(params.marker);
            let number = four_bytes(params.nonce_suffix@ as int);
            let (body, tag) = if mode == EncryptionMode::AeadAes256GcmRtpSize {
                aes256_gcm_sealed(key, number + zeros(8), header, frame)
            } else {
                xchacha20_poly1305_sealed(key, number + zeros(20), header, frame)
            };
            sealed_packet(mode, key, params, frame) == header + body + tag + number
        }),
{
    let number = four_bytes(params.nonce_suffix@ as int);
    assert(number =~= crate::bytes::be32_bytes(params.nonce_suffix@));
    assert(number + zeros(8) =~= super::crypto::full_nonce(params.nonce_suffix@, 12));
    assert(number + zeros(20) =~= super::crypto::full_nonce(params.nonce_suffix@, 24));
}

/// A packet is opened by its parts: what is in the clear is vouched for, its last four bytes
/// are the number that is used once, and the sixteen before them the tag.
#[verifier::rlimit(60)]
#[verifier::spinoff_prover]
pub proof fn law_packets_are_opened_by_their_parts(
    mode: EncryptionMode,
    key: Seq<u8>,
    clear: Seq<u8>,
    body: Seq<u8>,
    tag: Seq<u8>,
    number: u32,
    rtp: RtpHeader,
)
    requires
        tag.len() == 16,
        rtp.encrypted_body_offset == clear.len(),
    ensures
        opened_packet(mode, key, clear + body + tag + four_bytes(number as int), rtp) == (
        if mode == EncryptionMode::AeadAes256GcmRtpSize {
            aes256_gcm_opened(key, four_bytes(number as int) + zeros(8), clear, body, tag)
        } else {
            xchacha20_poly1305_opened(key, four_bytes(number as int) + zeros(20), clear, body, tag)
        }),
{
    let last = four_bytes(number as int);
    let packet = clear + body + tag + last;
    let at = packet.len() - 4;
    assert(packet[at] == last[0] && packet[at + 1] == last[1] && packet[at + 2] == last[2]
        && packet[at + 3] == last[3]);
    assert(super::crypto::packet_nonce(packet) == number);
    assert(packet.take(clear.len() as int) =~= clear);
    assert(packet.subrange(clear.len() as int, packet.len() - 20) =~= body);
    assert(packet.subrange(packet.len() - 20, packet.len() - 4) =~= tag);
    assert(last + zeros(8) =~= super::crypto::full_nonce(number, 12));
    assert(last + zeros(20) =~= super::crypto::full_nonce(number, 24));
}

/// Behind an extension and before padding the content is found as it was. The last byte of
/// padding counts the padding, itself included.
#[verifier::rlimit(60)]
#[verifier::spinoff_prover]
pub proof fn law_extension_and_padding_come_off(
    extension: Seq<u8>,
    content: Seq<u8>,
    filler: Seq<u8>,
)
    requires
        filler.len() < 255,
    ensures
        stripped(extension + content, extension.len() as int, false) == (
            content,
            Ok::<(), RtpError>(()),
        ),
        stripped(
            extension + content + filler + seq![(filler.len() + 1) as u8],
            extension.len() as int,
            true,
        ) == (content, Ok::<(), RtpError>(())),
{
    let plain = extension + content;
    assert(plain.skip(extension.len() as int) =~= content);
    let body = extension + content + filler + seq![(filler.len() + 1) as u8];
    let payload = body.skip(extension.len() as int);
    assert(payload.last() == filler.len() + 1);
    assert(payload.take(payload.len() - payload.last()) =~= content);
}

/// Padding that counts nothing, or more than there is, is refused; so is a packet that is
/// said to be padded and holds nothing, and one that ends within its extension.
#[verifier::rlimit(60)]
#[verifier::spinoff_prover]
pub proof fn law_wrong_padding_is_refused(extension: Seq<u8>, content: Seq<u8>, last: u8)
    requires
        last == 0 || last > content.len() + 1,
    ensures
        stripped(extension + content + seq![last], extension.len() as int, true).1 is Err,
        stripped(extension, extension.len() as int, true).1 is Err,
        forall|skip: int|
            extension.len() < skip ==> (#[trigger] stripped(extension, skip, false)).1 is Err,
{
    let body = extension + content + seq![last];
    assert(body.skip(extension.len() as int).last() == last);
}

/// Whether a packet is the next one of a frame: of the same source, codec and kind, and with
/// the number after its last.
pub open spec fn follows<Raw: FrameRaw>(
    frame: FrameParts<Raw::Packet>,
    packet: PendingMediaPacket<Raw>,
) -> bool {
    &&& packet.rtp.ssrc == frame.rtp.ssrc
    &&& packet.codec == frame.codec
    &&& packet.dave == frame.dave
    &&& packet.rtp.seq == ((frame.last_seq + 1) % 0x1_0000) as u16
}

/// A frame is made of packets that follow each other, and of nothing else: what a packet
/// brings is put behind a frame that it follows, or begins a frame of its own; a frame keeps
/// what its first packet says of it. No frame goes across a gap.
#[verifier::rlimit(60)]
#[verifier::spinoff_prover]
pub proof fn law_frames_have_no_gaps<Raw: FrameRaw>(
    partial: Option<FrameParts<Raw::Packet>>,
    packet: PendingMediaPacket<Raw>,
    frame: FrameParts<Raw::Packet>,
)
    requires
        partial matches Some(before) ==> before.packets.len() > 0,
        Some(frame) != partial,
        ({
            let step = assembled::<Raw>(partial, packet);
            step.partial == Some(frame) || step.done.contains(frame)
        }),
    ensures
        frame.packets.last() == packet.raw,
        frame.last_seq == packet.rtp.seq,
        frame.rtp.ssrc == packet.rtp.ssrc,
        frame.codec == packet.codec,
        frame.dave == packet.dave,
        read_payload(packet.codec, packet.encrypted_payload@, packet.rtp.marker, false) matches Ok(
            (_, body),
        ) && if frame.packets.len() == 1 {
            frame.rtp == packet.rtp && frame.user_id == packet.user_id && frame.bytes
                == body.adds().0
        } else {
            &&& partial matches Some(before)
            &&& follows::<Raw>(before, packet)
            &&& frame.packets == before.packets.push(packet.raw)
            &&& frame.rtp == before.rtp
            &&& frame.user_id == before.user_id
            &&& frame.bytes == before.bytes + body.adds().0
        },
{
    let step = assembled::<Raw>(partial, packet);
    if let Ok((_, body)) = read_payload(
        packet.codec,
        packet.encrypted_payload@,
        packet.rtp.marker,
        false,
    ) {
        assert(Seq::<u8>::empty() + body.adds().0 =~= body.adds().0);
    }
}

/// A frame under way is left as it is by a packet of another source that completes a frame of
/// its own or adds nothing; it is given up for a packet of its own source that does not
/// follow it; and where it is AV1, a packet of another time completes it.
#[verifier::rlimit(60)]
#[verifier::spinoff_prover]
pub proof fn law_frames_are_kept_or_given_up<Raw: FrameRaw>(
    frame: FrameParts<Raw::Packet>,
    packet: PendingMediaPacket<Raw>,
)
    ensures
        ({
            let step = assembled::<Raw>(Some(frame), packet);
            let other = packet.rtp.ssrc != frame.rtp.ssrc || packet.codec != frame.codec
                || packet.dave != frame.dave;
            let later = frame.codec == Codec::Av1 && packet.rtp.timestamp != frame.rtp.timestamp;
            &&& other && step.done.len() > 0 ==> step.partial == Some(frame)
            &&& other && step.fault is Some ==> step.partial == Some(frame)
            &&& !other && later ==> step.done.len() > 0 && step.done[0] == frame
            &&& !other && !later && !follows::<Raw>(frame, packet) && frame.last_seq
                != packet.rtp.seq ==> step.partial != Some(frame) && !step.done.contains(frame)
        }),
{
}

} // verus!
