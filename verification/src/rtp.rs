//! RTP payload types: seven-bit numbers that share a byte with the marker bit.

use vstd::prelude::*;

verus! {

/// A payload type, from 0 to 127.
#[derive(Clone, Copy, Debug, Eq, Hash, Ord, PartialEq, PartialOrd, Structural)]
pub struct RtpPayloadType {
    value: u8,
}

impl View for RtpPayloadType {
    type V = u8;

    closed spec fn view(&self) -> u8 {
        self.value
    }
}

/// The bit that shares the payload type's byte.
pub const MARKER_BIT: u8 = 0x80;

/// The byte that holds a payload type and a marker.
pub open spec fn marked(value: u8, marker: bool) -> u8 {
    if marker {
        (value + MARKER_BIT) as u8
    } else {
        value
    }
}

impl RtpPayloadType {
    pub const MAX: u8 = 0x7f;

    #[verifier::type_invariant]
    spec fn seven_bits(self) -> bool {
        self.value <= 0x7f
    }

    /// The payload type whose number is `value`.
    pub closed spec fn of(value: u8) -> RtpPayloadType {
        RtpPayloadType { value }
    }

    pub fn new(value: u8) -> (payload_type: Option<Self>)
        ensures
            payload_type == (if value <= 0x7f {
                Some(RtpPayloadType::of(value))
            } else {
                None
            }),
    {
        if value <= Self::MAX {
            Some(RtpPayloadType { value })
        } else {
            None
        }
    }

    /// The payload type of a number that is known to fit in seven bits.
    pub fn new_const(value: u8) -> (payload_type: Self)
        requires
            value <= 0x7f,
        ensures
            payload_type == RtpPayloadType::of(value),
    {
        RtpPayloadType { value }
    }

    /// The payload type in a byte whose top bit is the marker.
    pub fn from_marker_byte(byte: u8) -> (payload_type: Self)
        ensures
            payload_type == RtpPayloadType::of((byte % 128) as u8),
    {
        RtpPayloadType { value: byte % 128 }
    }

    pub fn get(self) -> (value: u8)
        ensures
            value == self@,
            value <= 0x7f,
    {
        proof {
            use_type_invariant(&self);
        }
        self.value
    }

    pub fn index(self) -> (index: usize)
        ensures
            index == self@,
            index < 128,
    {
        proof {
            use_type_invariant(&self);
        }
        self.value as usize
    }

    /// The byte that holds this payload type and the marker.
    pub fn marker_byte(self, marker: bool) -> (byte: u8)
        ensures
            byte == marked(self@, marker),
            self@ <= 0x7f,
    {
        proof {
            use_type_invariant(&self);
        }
        if marker {
            self.value + MARKER_BIT
        } else {
            self.value
        }
    }

    /// The decimal number, as it is shown.
    pub fn describe(self) -> (text: String)
        ensures
            text@ == crate::text::decimal(self@ as nat),
    {
        crate::text::decimal_text(self.value as u64)
    }
}

/// A payload type is determined by its number.
pub broadcast proof fn payload_type_is_its_number(a: RtpPayloadType, b: RtpPayloadType)
    ensures
        (#[trigger] a@ == #[trigger] b@) == (a == b),
{
}

pub broadcast proof fn payload_type_of_number(value: u8)
    ensures
        #[trigger] RtpPayloadType::of(value)@ == value,
{
}

/// What `from_marker_byte` reads out of the byte that `marker_byte` wrote is the
/// payload type that went in.
pub proof fn law_marker_byte_round_trips(value: u8, marker: bool)
    requires
        value <= 0x7f,
    ensures
        marked(value, marker) % 128 == value,
        (marked(value, marker) >= MARKER_BIT) == marker,
{
}

} // verus!
