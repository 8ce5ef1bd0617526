//! Finding out the address under which the server sees this end.

use crate::bytes::{
    be16, be16_bytes, be32, be32_bytes, push_be16, push_be32, push_range, read_be16, read_be32,
};
use crate::errors::{Error, ProtocolError};
use vstd::prelude::*;
use vstd::utf8::{encode_utf8, valid_utf8};

verus! {

pub const DISCOVERY_LEN: usize = 74;

pub const DISCOVERY_REQUEST_TYPE: u16 = 1;

pub const DISCOVERY_RESPONSE_TYPE: u16 = 2;

/// The length of what follows the type and the length.
pub const DISCOVERY_BODY_LEN: u16 = 70;

/// The most bytes, of no more than `at` from the front, that are UTF-8.
pub open spec fn utf8_prefix(bytes: Seq<u8>, at: int) -> int
    decreases at,
{
    if at <= 0 || valid_utf8(bytes.take(at)) {
        at
    } else {
        utf8_prefix(bytes, at - 1)
    }
}

/// How many bytes behind the prefix that is UTF-8 are not; nothing where the end came too
/// early.
pub uninterp spec fn utf8_error_len(bytes: Seq<u8>) -> Option<usize>;

/// `String::from_utf8` of the standard library: the text whose UTF-8 bytes these are. Where
/// they are not UTF-8, the error says up to where they are (`Utf8Error::valid_up_to`), and
/// how many bytes there are not (`Utf8Error::error_len`), which is a function of the bytes:
/// some, or none where the end comes in the middle of a character.
#[verifier::external_body]
fn text_from_utf8(bytes: Vec<u8>) -> (text: Result<String, (usize, Option<usize>)>)
    ensures
        text is Ok == valid_utf8(bytes@),
        text matches Ok(text) ==> encode_utf8(text@) == bytes@,
        text matches Err((valid_up_to, error_len)) ==> {
            &&& valid_up_to == utf8_prefix(bytes@, bytes@.len() as int)
            &&& error_len == utf8_error_len(bytes@)
            &&& match error_len {
                Some(len) => 1 <= len <= bytes@.len() - valid_up_to,
                None => 1 <= bytes@.len() - valid_up_to <= 3,
            }
        },
{
    String::from_utf8(bytes).map_err(|error| {
        let error = error.utf8_error();
        (error.valid_up_to(), error.error_len())
    })
}

/// What a discovery packet says.
#[derive(Debug, PartialEq, Eq)]
pub struct UdpDiscoveryPacket {
    pub ssrc: u32,
    pub address: String,
    pub port: u16,
}

/// Where the address ends that starts at `at`: at the first zero byte, or at `end`.
pub open spec fn zero_from(bytes: Seq<u8>, at: int, end: int) -> int
    decreases end - at,
{
    if at >= end || bytes[at] == 0 {
        at
    } else {
        zero_from(bytes, at + 1, end)
    }
}

proof fn lemma_zero_from(bytes: Seq<u8>, at: int, end: int, zero: int)
    requires
        at <= zero <= end,
        zero == end || bytes[zero] == 0,
        forall|i: int| at <= i < zero ==> bytes[i] != 0,
    ensures
        zero_from(bytes, at, end) == zero,
    decreases end - at,
{
    if at < zero {
        lemma_zero_from(bytes, at + 1, end, zero);
    }
}

/// The bytes of the address in a packet.
pub open spec fn address_bytes(packet: Seq<u8>) -> Seq<u8> {
    packet.subrange(8, zero_from(packet, 8, 72))
}

/// What is wrong with a packet, if something is.
pub open spec fn discovery_fault(packet: Seq<u8>) -> Option<ProtocolError> {
    if packet.len() < 74 {
        Some(
            ProtocolError::UdpDiscoveryPacketTooShort { len: packet.len() as usize, min_len: 74 },
        )
    } else if be16(packet[0], packet[1]) != 2 {
        Some(
            ProtocolError::UnexpectedUdpDiscoveryPacketType {
                packet_type: be16(packet[0], packet[1]),
                expected_packet_type: 2,
            },
        )
    } else if be16(packet[2], packet[3]) != 70 {
        Some(
            ProtocolError::UnexpectedUdpDiscoveryPacketLen {
                packet_len: be16(packet[2], packet[3]),
                expected_packet_len: 70,
            },
        )
    } else if !valid_utf8(address_bytes(packet)) {
        let address = address_bytes(packet);
        Some(
            ProtocolError::InvalidUdpDiscoveryIp {
                valid_up_to: utf8_prefix(address, address.len() as int) as usize,
                error_len: utf8_error_len(address),
            },
        )
    } else {
        None
    }
}

/// What comes of reading an answer.
pub open spec fn discovery_told(
    packet: Seq<u8>,
    answer: Result<UdpDiscoveryPacket, Error>,
) -> bool {
    match discovery_fault(packet) {
        Some(error) => answer == Err::<UdpDiscoveryPacket, Error>(Error::Protocol(error)),
        None => {
            &&& answer matches Ok(answer)
            &&& answer.ssrc == be32(packet[4], packet[5], packet[6], packet[7])
            &&& encode_utf8(answer.address@) == address_bytes(packet)
            &&& answer.port == be16(packet[72], packet[73])
        },
    }
}

/// The packet that asks for the address of a source.
pub open spec fn discovery_request(ssrc: u32) -> Seq<u8> {
    be16_bytes(1) + be16_bytes(70) + be32_bytes(ssrc) + Seq::new(66, |i: int| 0u8)
}

impl UdpDiscoveryPacket {
    pub fn request(ssrc: u32) -> (packet: Vec<u8>)
        ensures
            packet@ == discovery_request(ssrc),
            packet@.len() == 74,
    {
        let mut packet: Vec<u8> = Vec::new();
        push_be16(&mut packet, DISCOVERY_REQUEST_TYPE);
        push_be16(&mut packet, DISCOVERY_BODY_LEN);
        push_be32(&mut packet, ssrc);
        packet.resize(DISCOVERY_LEN, 0);
        assert(packet@ =~= discovery_request(ssrc));
        packet
    }

    /// Reads the answer. Refused, in this order: a packet that is too short, that is no
    /// answer, whose length is wrong, or whose address is not UTF-8.
    pub fn decode(packet: &[u8]) -> (answer: Result<Self, Error>)
        ensures
            discovery_told(packet@, answer),
    {
        let len = packet.len();
        if len < DISCOVERY_LEN {
            return Err(
                Error::Protocol(
                    ProtocolError::UdpDiscoveryPacketTooShort { len, min_len: DISCOVERY_LEN },
                ),
            );
        }
        let packet_type: u16 = read_be16(packet[0], packet[1]);
        if packet_type != DISCOVERY_RESPONSE_TYPE {
            return Err(
                Error::Protocol(
                    ProtocolError::UnexpectedUdpDiscoveryPacketType {
                        packet_type,
                        expected_packet_type: DISCOVERY_RESPONSE_TYPE,
                    },
                ),
            );
        }
        let packet_len: u16 = read_be16(packet[2], packet[3]);
        if packet_len != DISCOVERY_BODY_LEN {
            return Err(
                Error::Protocol(
                    ProtocolError::UnexpectedUdpDiscoveryPacketLen {
                        packet_len,
                        expected_packet_len: DISCOVERY_BODY_LEN,
                    },
                ),
            );
        }
        let mut end: usize = 8;
        while end < 72 && packet[end] != 0
            invariant
                8 <= end <= 72,
                packet@.len() >= 74,
                forall|i: int| 8 <= i < end ==> packet@[i] != 0,
            decreases 72 - end,
        {
            end = end + 1;
        }
        proof {
            lemma_zero_from(packet@, 8, 72, end as int);
        }
        let mut address: Vec<u8> = Vec::new();
        push_range(&mut address, packet, 8, end);
        assert(address@ =~= address_bytes(packet@));
        match text_from_utf8(address) {
            Ok(address) => Ok(
                UdpDiscoveryPacket {
                    ssrc: read_be32(packet[4], packet[5], packet[6], packet[7]),
                    address,
                    port: read_be16(packet[72], packet[73]),
                },
            ),
            Err((valid_up_to, error_len)) => Err(
                Error::Protocol(ProtocolError::InvalidUdpDiscoveryIp { valid_up_to, error_len }),
            ),
        }
    }
}

/// The answer that carries this address: what a server sends.
pub open spec fn discovery_answer(ssrc: u32, address: Seq<char>, port: u16) -> Seq<u8> {
    let text = encode_utf8(address);
    be16_bytes(2) + be16_bytes(70) + be32_bytes(ssrc) + text + Seq::new(
        (64 - text.len()) as nat,
        |i: int| 0u8,
    ) + be16_bytes(port)
}

/// An answer is read as what it says: an address of at most 64 bytes, none of them zero,
/// comes out as it went in.
pub proof fn law_discovery_answers_are_read(ssrc: u32, address: Seq<char>, port: u16)
    requires
        encode_utf8(address).len() <= 64,
        forall|i: int|
            0 <= i < encode_utf8(address).len() ==> #[trigger] encode_utf8(address)[i] != 0,
    ensures
        ({
            let packet = discovery_answer(ssrc, address, port);
            &&& discovery_fault(packet) is None
            &&& be32(packet[4], packet[5], packet[6], packet[7]) == ssrc
            &&& address_bytes(packet) == encode_utf8(address)
            &&& be16(packet[72], packet[73]) == port
        }),
{
    let packet = discovery_answer(ssrc, address, port);
    let text = encode_utf8(address);
    vstd::utf8::encode_utf8_valid_utf8(address);
    crate::bytes::lemma_be32_round_trip(ssrc);
    crate::bytes::lemma_be16_round_trip(port);
    assert(be32_bytes(ssrc) =~= seq![packet[4], packet[5], packet[6], packet[7]]);
    assert(be16_bytes(port) =~= seq![packet[72], packet[73]]);
    assert(packet[0] == 0 && packet[1] == 2 && packet[2] == 0 && packet[3] == 70);
    assert forall|i: int| 8 <= i < 8 + text.len() implies packet[i] != 0 by {
        assert(packet[i] == text[i - 8]);
    }
    assert(text.len() < 64 ==> packet[8 + text.len() as int] == 0);
    lemma_zero_from(packet, 8, 72, 8 + text.len() as int);
    assert(address_bytes(packet) =~= text);
}

/// A request has 74 bytes: the type 1 and the length 70, each in two; the source in four; and
/// zeros.
pub proof fn law_discovery_requests_on_the_wire(ssrc: u32)
    ensures
        ({
            let packet = discovery_request(ssrc);
            &&& packet.len() == 74
            &&& packet[0] == 0 && packet[1] == 1
            &&& packet[2] == 0 && packet[3] == 70
            &&& packet[4] * 16_777_216 + packet[5] * 65_536 + packet[6] * 256 + packet[7] == ssrc
            &&& forall|i: int| 8 <= i < 74 ==> packet[i] == 0
        }),
{
}

/// Nothing but an answer is taken for one: a packet that is too short, of another type, or of
/// another length is refused.
pub proof fn law_other_packets_are_no_answers(packet: Seq<u8>)
    ensures
        packet.len() < 74 ==> discovery_fault(packet) is Some,
        packet.len() >= 74 && (packet[0] != 0 || packet[1] != 2 || packet[2] != 0 || packet[3]
            != 70) ==> discovery_fault(packet) is Some,
{
}

} // verus!
