//! Packets as they come off the socket, and the frames that keep them or not.

use super::header::{RtpFixedHeader, RtpHeader};
use crate::bytes::{be16, be32, read_be16, read_be32, to_vec};
use crate::codec::{Codec, MediaType};
use crate::errors::{Error, PayloadKind};
use crate::observer::RtcpHeader;
use crate::rtp::RtpPayloadType;
use vstd::prelude::*;

verus! {

/// A datagram, with what its first bytes say.
#[derive(Clone, Debug, PartialEq, Eq)]
pub struct RawUdpPacket {
    pub bytes: Vec<u8>,
    pub info: RawUdpPacketInfo,
}

/// What the first bytes of a datagram say, as far as it has them.
#[derive(Clone, Copy, Debug, PartialEq, Eq, Structural)]
pub struct RawUdpPacketInfo {
    pub version: Option<u8>,
    pub raw_payload_type: Option<u8>,
    pub payload_type: Option<RtpPayloadType>,
    pub seq: Option<u16>,
    pub timestamp: Option<u32>,
    pub ssrc: Option<u32>,
}

/// What an RTCP packet says in its first bytes.
pub open spec fn rtcp_header_of(bytes: Seq<u8>) -> RtcpHeader {
    RtcpHeader {
        version: (bytes[0] / 64) as u8,
        padding: bytes[0] / 32 % 2 == 1,
        report_count: (bytes[0] % 32) as u8,
        packet_type: bytes[1],
        length_words: be16(bytes[2], bytes[3]),
        ssrc: if bytes.len() >= 8 {
            Some(be32(bytes[4], bytes[5], bytes[6], bytes[7]))
        } else {
            None
        },
    }
}

impl RawUdpPacketInfo {
    pub open spec fn of(bytes: Seq<u8>) -> RawUdpPacketInfo {
        let raw = if bytes.len() >= 2 {
            Some(bytes[1])
        } else {
            None
        };
        if bytes.len() >= 12 {
            let header = RtpFixedHeader::read(bytes);
            RawUdpPacketInfo {
                version: Some(header.version),
                raw_payload_type: raw,
                payload_type: Some(header.payload_type),
                seq: Some(header.seq),
                timestamp: Some(header.timestamp),
                ssrc: Some(header.ssrc),
            }
        } else {
            RawUdpPacketInfo {
                version: None,
                raw_payload_type: raw,
                payload_type: match raw {
                    Some(byte) => Some(RtpPayloadType::of((byte % 128) as u8)),
                    None => None,
                },
                seq: None,
                timestamp: None,
                ssrc: None,
            }
        }
    }

    pub fn from_bytes(bytes: &[u8]) -> (info: Self)
        ensures
            info == RawUdpPacketInfo::of(bytes@),
    {
        let raw_payload_type: Option<u8> = if bytes.len() >= 2 {
            Some(bytes[1])
        } else {
            None
        };
        match RtpFixedHeader::parse(bytes) {
            Some(header) => RawUdpPacketInfo {
                version: Some(header.version),
                raw_payload_type,
                payload_type: Some(header.payload_type),
                seq: Some(header.seq),
                timestamp: Some(header.timestamp),
                ssrc: Some(header.ssrc),
            },
            None => RawUdpPacketInfo {
                version: None,
                raw_payload_type,
                payload_type: match raw_payload_type {
                    Some(byte) => Some(RtpPayloadType::from_marker_byte(byte)),
                    None => None,
                },
                seq: None,
                timestamp: None,
                ssrc: None,
            },
        }
    }

    /// Whether the second byte is a packet type of RTCP.
    pub open spec fn rtcp(self) -> bool {
        self.raw_payload_type matches Some(byte) && 192 <= byte <= 223
    }

    pub fn is_rtcp(self) -> (answer: bool)
        ensures
            answer == self.rtcp(),
    {
        match self.raw_payload_type {
            Some(byte) => 192 <= byte && byte <= 223,
            None => false,
        }
    }

    /// The header of an RTCP packet of at least four bytes.
    pub fn rtcp_header(self, bytes: &[u8]) -> (header: Option<RtcpHeader>)
        ensures
            header == (if self.rtcp() && bytes@.len() >= 4 {
                Some(rtcp_header_of(bytes@))
            } else {
                None
            }),
    {
        if !self.is_rtcp() || bytes.len() < 4 {
            return None;
        }
        Some(
            RtcpHeader {
                version: bytes[0] / 64,
                padding: bytes[0] / 32 % 2 == 1,
                report_count: bytes[0] % 32,
                packet_type: bytes[1],
                length_words: read_be16(bytes[2], bytes[3]),
                ssrc: if bytes.len() >= 8 {
                    Some(read_be32(bytes[4], bytes[5], bytes[6], bytes[7]))
                } else {
                    None
                },
            },
        )
    }

    pub fn into_raw_packet(self, bytes: &[u8]) -> (packet: RawUdpPacket)
        ensures
            packet.bytes@ == bytes@,
            packet.info == self,
    {
        RawUdpPacket::from_parts(to_vec(bytes), self)
    }
}

impl RawUdpPacket {
    pub fn from_bytes(bytes: Vec<u8>) -> (packet: Self)
        ensures
            packet.bytes == bytes,
            packet.info == RawUdpPacketInfo::of(bytes@),
    {
        let info = RawUdpPacketInfo::from_bytes(bytes.as_slice());
        Self::from_parts(bytes, info)
    }

    pub fn from_parts(bytes: Vec<u8>, info: RawUdpPacketInfo) -> (packet: Self)
        ensures
            packet == (RawUdpPacket { bytes, info }),
    {
        RawUdpPacket { bytes, info }
    }

    pub fn is_rtcp(&self) -> (answer: bool)
        ensures
            answer == self.info.rtcp(),
    {
        self.info.is_rtcp()
    }

    pub fn rtcp_header(&self) -> (header: Option<RtcpHeader>)
        ensures
            header == (if self.info.rtcp() && self.bytes@.len() >= 4 {
                Some(rtcp_header_of(self.bytes@))
            } else {
                None
            }),
    {
        self.info.rtcp_header(self.bytes.as_slice())
    }

    /// The packet, unless it is longer than `max_len`.
    pub fn ensure_len_at_most(self, max_len: usize, kind: PayloadKind) -> (packet: Result<
        Self,
        Error,
    >)
        ensures
            packet == (if self.bytes@.len() > max_len {
                Err::<Self, Error>(
                    Error::PayloadTooLarge { kind, len: self.bytes@.len() as usize, max_len },
                )
            } else {
                Ok::<Self, Error>(self)
            }),
    {
        let len = self.bytes.len();
        if len > max_len {
            Err(Error::PayloadTooLarge { kind, len, max_len })
        } else {
            Ok(self)
        }
    }
}

/// What a frame keeps of the packets that carried it.
pub trait FrameRaw: Sized {
    /// What is kept of one packet.
    type Packet: Sized;

    /// Whether `packet` is what is kept of these bytes.
    spec fn captured(packet: Self::Packet, bytes: Seq<u8>, info: RawUdpPacketInfo) -> bool;

    /// Whether this is what is kept of these packets.
    spec fn made_of(self, packets: Seq<Self::Packet>) -> bool;

    fn capture_packet(bytes: &[u8], info: RawUdpPacketInfo) -> (packet: Self::Packet)
        ensures
            Self::captured(packet, bytes@, info),
    ;

    fn from_rtp_packets(packets: Vec<Self::Packet>) -> (raw: Self)
        ensures
            raw.made_of(packets@),
    ;
}

/// Keeps nothing.
#[derive(Clone, Copy, Debug, PartialEq, Eq, Structural)]
pub struct NoRawPackets;

impl FrameRaw for NoRawPackets {
    type Packet = ();

    open spec fn captured(packet: (), bytes: Seq<u8>, info: RawUdpPacketInfo) -> bool {
        true
    }

    open spec fn made_of(self, packets: Seq<()>) -> bool {
        true
    }

    fn capture_packet(_bytes: &[u8], _info: RawUdpPacketInfo) -> (packet: ()) {
    }

    fn from_rtp_packets(_packets: Vec<()>) -> (raw: Self) {
        NoRawPackets
    }
}

/// Keeps every packet whole.
#[derive(Clone, Debug, PartialEq, Eq)]
pub struct RawFramePackets {
    pub packets: Vec<RawUdpPacket>,
}

impl FrameRaw for RawFramePackets {
    type Packet = RawUdpPacket;

    open spec fn captured(packet: RawUdpPacket, bytes: Seq<u8>, info: RawUdpPacketInfo) -> bool {
        packet.bytes@ == bytes && packet.info == info
    }

    open spec fn made_of(self, packets: Seq<RawUdpPacket>) -> bool {
        self.packets@ == packets
    }

    fn capture_packet(bytes: &[u8], info: RawUdpPacketInfo) -> (packet: RawUdpPacket) {
        info.into_raw_packet(bytes)
    }

    fn from_rtp_packets(packets: Vec<RawUdpPacket>) -> (raw: Self) {
        RawFramePackets { packets }
    }
}

/// A media frame that was received and decrypted.
#[derive(Clone, Debug, PartialEq, Eq)]
pub struct ReceivedFrame<Raw> {
    pub raw: Raw,
    pub rtp: RtpHeader,
    pub user_id: Option<u64>,
    pub media_type: MediaType,
    pub codec: Codec,
    pub frame: Vec<u8>,
}

impl<Raw> ReceivedFrame<Raw> {
    /// The frame, unless it is longer than `max_len`.
    pub fn ensure_len_at_most(self, max_len: usize) -> (frame: Result<Self, Error>)
        ensures
            frame == (if self.frame@.len() > max_len {
                Err::<Self, Error>(
                    Error::PayloadTooLarge {
                        kind: PayloadKind::Frame,
                        len: self.frame@.len() as usize,
                        max_len,
                    },
                )
            } else {
                Ok::<Self, Error>(self)
            }),
    {
        let len = self.frame.len();
        if len > max_len {
            Err(Error::PayloadTooLarge { kind: PayloadKind::Frame, len, max_len })
        } else {
            Ok(self)
        }
    }
}

/// A received audio frame and its samples.
#[derive(Clone, Debug, PartialEq, Eq)]
pub struct DecodedFrame<Raw> {
    pub frame: ReceivedFrame<Raw>,
    pub pcm_layout: DecodedPcmLayout,
    pub pcm: Vec<i16>,
}

/// A received audio frame whose samples went elsewhere.
#[derive(Clone, Debug, PartialEq, Eq)]
pub struct DecodedFrameMetadata<Raw> {
    pub frame: ReceivedFrame<Raw>,
    pub pcm_layout: DecodedPcmLayout,
}

#[derive(Clone, Copy, Debug, PartialEq, Eq, Structural)]
pub struct DecodedPcmLayout {
    pub sample_rate_hz: u32,
    pub channels: usize,
    pub samples_per_channel: usize,
}

} // verus!
