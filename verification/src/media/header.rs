//! RTP headers: reading them and writing them.

use crate::bytes::{
    be16, be16_bytes, be32, be32_bytes, lemma_be16_round_trip, lemma_be32_round_trip, push_be16,
    push_be32, read_be16, read_be32,
};
use crate::errors::RtpError;
use crate::rtp::{
    law_marker_byte_round_trips, marked, payload_type_is_its_number, payload_type_of_number,
    RtpPayloadType,
};
use vstd::prelude::*;

verus! {

pub const RTP_VERSION: u8 = 2;

/// The length of the part that every RTP header has.
pub const FIXED_HEADER_LEN: usize = 12;

/// The part that every RTP header has.
#[derive(Clone, Copy, Debug, PartialEq, Eq, Structural)]
pub struct RtpFixedHeader {
    pub version: u8,
    pub padding: bool,
    pub extension: bool,
    pub marker: bool,
    pub payload_type: RtpPayloadType,
    pub csrc_count: u8,
    pub seq: u16,
    pub timestamp: u32,
    pub ssrc: u32,
}

impl RtpFixedHeader {
    /// What the first twelve bytes say.
    pub open spec fn read(bytes: Seq<u8>) -> RtpFixedHeader {
        RtpFixedHeader {
            version: (bytes[0] / 64) as u8,
            padding: bytes[0] / 32 % 2 == 1,
            extension: bytes[0] / 16 % 2 == 1,
            marker: bytes[1] >= 128,
            payload_type: RtpPayloadType::of((bytes[1] % 128) as u8),
            csrc_count: (bytes[0] % 16) as u8,
            seq: be16(bytes[2], bytes[3]),
            timestamp: be32(bytes[4], bytes[5], bytes[6], bytes[7]),
            ssrc: be32(bytes[8], bytes[9], bytes[10], bytes[11]),
        }
    }

    /// The fixed part of a header; nothing where there are fewer than twelve bytes.
    pub fn parse(bytes: &[u8]) -> (header: Option<Self>)
        ensures
            header == (if bytes@.len() < 12 {
                None
            } else {
                Some(RtpFixedHeader::read(bytes@))
            }),
    {
        if bytes.len() < FIXED_HEADER_LEN {
            return None;
        }
        Some(
            RtpFixedHeader {
                version: bytes[0] / 64,
                padding: bytes[0] / 32 % 2 == 1,
                extension: bytes[0] / 16 % 2 == 1,
                marker: bytes[1] >= 128,
                payload_type: RtpPayloadType::from_marker_byte(bytes[1]),
                csrc_count: bytes[0] % 16,
                seq: read_be16(bytes[2], bytes[3]),
                timestamp: read_be32(bytes[4], bytes[5], bytes[6], bytes[7]),
                ssrc: read_be32(bytes[8], bytes[9], bytes[10], bytes[11]),
            },
        )
    }
}

/// An RTP header. Where it has an extension, the extension's own header is sent in the
/// clear and its content is encrypted: `encrypted_body_offset` lies between them.
#[derive(Clone, Copy, Debug, PartialEq, Eq, Structural)]
pub struct RtpHeader {
    pub version: u8,
    pub padding: bool,
    pub extension: bool,
    pub marker: bool,
    pub payload_type: RtpPayloadType,
    pub seq: u16,
    pub timestamp: u32,
    pub ssrc: u32,
    pub header_len: usize,
    pub encrypted_body_offset: usize,
}

/// Where the list of contributing sources ends.
pub open spec fn csrc_end(bytes: Seq<u8>) -> int {
    12 + 4 * (bytes[0] % 16)
}

/// Where the extension ends that starts at `at`.
pub open spec fn extension_end(bytes: Seq<u8>, at: int) -> int {
    at + 4 + 4 * be16(bytes[at + 2], bytes[at + 3])
}

impl RtpHeader {
    /// The header at the start of a packet, or why there is none.
    pub open spec fn read(bytes: Seq<u8>) -> Result<RtpHeader, RtpError> {
        let fixed = RtpFixedHeader::read(bytes);
        let clear_end = csrc_end(bytes);
        let len = bytes.len() as usize;
        if bytes.len() < 12 {
            Err(RtpError::PacketTooShort { len })
        } else if fixed.version != 2 {
            Err(RtpError::UnsupportedVersion { version: fixed.version })
        } else if bytes.len() < clear_end {
            Err(RtpError::TruncatedCsrcList { len, expected_header_len: clear_end as usize })
        } else if !fixed.extension {
            Ok(RtpHeader::with_offsets(fixed, clear_end as usize, clear_end as usize))
        } else if bytes.len() < clear_end + 4 {
            Err(
                RtpError::TruncatedExtensionHeader {
                    len,
                    expected_header_len: (clear_end + 4) as usize,
                },
            )
        } else if bytes.len() < extension_end(bytes, clear_end) {
            Err(
                RtpError::TruncatedExtensionPayload {
                    len,
                    expected_header_len: extension_end(bytes, clear_end) as usize,
                },
            )
        } else {
            Ok(
                RtpHeader::with_offsets(
                    fixed,
                    extension_end(bytes, clear_end) as usize,
                    (clear_end + 4) as usize,
                ),
            )
        }
    }

    pub open spec fn with_offsets(
        fixed: RtpFixedHeader,
        header_len: usize,
        encrypted_body_offset: usize,
    ) -> RtpHeader {
        RtpHeader {
            version: fixed.version,
            padding: fixed.padding,
            extension: fixed.extension,
            marker: fixed.marker,
            payload_type: fixed.payload_type,
            seq: fixed.seq,
            timestamp: fixed.timestamp,
            ssrc: fixed.ssrc,
            header_len,
            encrypted_body_offset,
        }
    }

    /// Whether the encrypted part starts within the header, as in every header that
    /// was read or written here.
    pub open spec fn consistent(self) -> bool {
        12 <= self.encrypted_body_offset <= self.header_len <= 0x4_0048
    }

    /// Reads the header at the start of a packet.
    pub fn parse(bytes: &[u8]) -> (header: Result<Self, RtpError>)
        ensures
            header == RtpHeader::read(bytes@),
            header matches Ok(header) ==> header.consistent() && header.header_len <= bytes@.len(),
    {
        let len = bytes.len();
        let fixed = match RtpFixedHeader::parse(bytes) {
            Some(fixed) => fixed,
            None => {
                return Err(RtpError::PacketTooShort { len });
            },
        };
        if fixed.version != RTP_VERSION {
            return Err(RtpError::UnsupportedVersion { version: fixed.version });
        }
        let clear_end: usize = FIXED_HEADER_LEN + 4 * (fixed.csrc_count as usize);
        if len < clear_end {
            return Err(RtpError::TruncatedCsrcList { len, expected_header_len: clear_end });
        }
        let mut header_len: usize = clear_end;
        let mut encrypted_body_offset: usize = clear_end;
        if fixed.extension {
            if len < clear_end + 4 {
                return Err(
                    RtpError::TruncatedExtensionHeader { len, expected_header_len: clear_end + 4 },
                );
            }
            let words: usize = read_be16(bytes[clear_end + 2], bytes[clear_end + 3]) as usize;
            encrypted_body_offset = clear_end + 4;
            header_len = clear_end + 4 + 4 * words;
            if len < header_len {
                return Err(
                    RtpError::TruncatedExtensionPayload { len, expected_header_len: header_len },
                );
            }
        }
        Ok(
            RtpHeader {
                version: fixed.version,
                padding: fixed.padding,
                extension: fixed.extension,
                marker: fixed.marker,
                payload_type: fixed.payload_type,
                seq: fixed.seq,
                timestamp: fixed.timestamp,
                ssrc: fixed.ssrc,
                header_len,
                encrypted_body_offset,
            },
        )
    }
}

/// What a sender chooses of a header.
#[derive(Clone, Copy, Debug, PartialEq, Eq, Structural)]
pub struct RtpHeaderFields {
    pub seq: u16,
    pub timestamp: u32,
    pub ssrc: u32,
    pub payload_type: RtpPayloadType,
}

impl RtpHeaderFields {
    /// The twelve bytes of the header.
    pub open spec fn bytes(self, marker: bool) -> Seq<u8> {
        seq![0x80u8, marked(self.payload_type@, marker)] + be16_bytes(self.seq) + be32_bytes(
            self.timestamp,
        ) + be32_bytes(self.ssrc)
    }

    /// The header that those bytes are.
    pub open spec fn header(self, marker: bool) -> RtpHeader {
        RtpHeader {
            version: 2,
            padding: false,
            extension: false,
            marker,
            payload_type: self.payload_type,
            seq: self.seq,
            timestamp: self.timestamp,
            ssrc: self.ssrc,
            header_len: 12,
            encrypted_body_offset: 12,
        }
    }
}

/// A header in the making.
#[derive(Clone, Copy, Debug, PartialEq, Eq, Structural)]
pub struct RtpHeaderBuilder {
    pub fields: RtpHeaderFields,
    pub marked: bool,
}

impl RtpHeaderBuilder {
    pub fn new(fields: RtpHeaderFields) -> (builder: Self)
        ensures
            builder == (RtpHeaderBuilder { fields, marked: false }),
    {
        RtpHeaderBuilder { fields, marked: false }
    }

    pub fn marker(self, marker: bool) -> (builder: Self)
        ensures
            builder == (RtpHeaderBuilder { fields: self.fields, marked: marker }),
    {
        RtpHeaderBuilder { fields: self.fields, marked: marker }
    }

    /// Appends the header to a packet.
    pub fn write_to(self, packet: &mut Vec<u8>) -> (header: RtpHeader)
        ensures
            header == self.fields.header(self.marked),
            final(packet)@ == old(packet)@ + self.fields.bytes(self.marked),
            self.fields.payload_type@ <= 0x7f,
    {
        packet.push(0x80);
        packet.push(self.fields.payload_type.marker_byte(self.marked));
        push_be16(packet, self.fields.seq);
        push_be32(packet, self.fields.timestamp);
        push_be32(packet, self.fields.ssrc);
        assert(packet@ =~= old(packet)@ + self.fields.bytes(self.marked));
        RtpHeader {
            version: RTP_VERSION,
            padding: false,
            extension: false,
            marker: self.marked,
            payload_type: self.fields.payload_type,
            seq: self.fields.seq,
            timestamp: self.fields.timestamp,
            ssrc: self.fields.ssrc,
            header_len: FIXED_HEADER_LEN,
            encrypted_body_offset: FIXED_HEADER_LEN,
        }
    }
}

/// A header that was written is read back, whatever comes after it.
pub proof fn law_headers_round_trip(fields: RtpHeaderFields, marker: bool, rest: Seq<u8>)
    requires
        fields.payload_type@ <= 0x7f,
    ensures
        RtpHeader::read(fields.bytes(marker) + rest) == Ok::<RtpHeader, RtpError>(
            fields.header(marker),
        ),
{
    broadcast use payload_type_is_its_number, payload_type_of_number;

    let bytes = fields.bytes(marker) + rest;
    assert(bytes[0] == 0x80);
    assert(bytes[1] == marked(fields.payload_type@, marker));
    law_marker_byte_round_trips(fields.payload_type@, marker);
    assert(RtpPayloadType::of(fields.payload_type@)@ == fields.payload_type@);
    lemma_be16_round_trip(fields.seq);
    lemma_be32_round_trip(fields.timestamp);
    lemma_be32_round_trip(fields.ssrc);
    assert(be16_bytes(fields.seq) =~= seq![bytes[2], bytes[3]]);
    assert(be32_bytes(fields.timestamp) =~= seq![bytes[4], bytes[5], bytes[6], bytes[7]]);
    assert(be32_bytes(fields.ssrc) =~= seq![bytes[8], bytes[9], bytes[10], bytes[11]]);
}

} // verus!
