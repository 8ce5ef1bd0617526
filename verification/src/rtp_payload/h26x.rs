//! What H.264 and H.265 payloads have in common, and where they differ.

use crate::codec::Codec;
use vstd::prelude::*;

verus! {

/// The two codecs whose frames are NAL units.
#[derive(Clone, Copy, Debug, PartialEq, Eq, Structural)]
pub enum H26x {
    H264,
    H265,
}

impl H26x {
    pub open spec fn codec(self) -> Codec {
        match self {
            H26x::H264 => Codec::H264,
            H26x::H265 => Codec::H265,
        }
    }

    /// The bytes of a NAL unit's header.
    pub open spec fn nal_header_len(self) -> int {
        match self {
            H26x::H264 => 1,
            H26x::H265 => 2,
        }
    }

    /// The bytes before the data of a fragmentation unit.
    pub open spec fn fragment_header_len(self) -> int {
        match self {
            H26x::H264 => 2,
            H26x::H265 => 3,
        }
    }

    /// The type in the first byte of a NAL unit's header.
    pub open spec fn nal_type(self, header: u8) -> u8 {
        match self {
            H26x::H264 => header & 0x1f,
            H26x::H265 => (header >> 1) & 0x3f,
        }
    }

    /// The types that stand for a NAL unit of its own.
    pub open spec fn is_single(self, nalu_type: u8) -> bool {
        match self {
            H26x::H264 => 1 <= nalu_type <= 23,
            H26x::H265 => nalu_type <= 47,
        }
    }

    /// The type of a payload that holds several NAL units.
    pub open spec fn is_aggregation(self, nalu_type: u8) -> bool {
        match self {
            H26x::H264 => nalu_type == 24,
            H26x::H265 => nalu_type == 48,
        }
    }

    /// The type of a payload that holds a fragment of a NAL unit.
    pub open spec fn is_fragment(self, nalu_type: u8) -> bool {
        match self {
            H26x::H264 => nalu_type == 28,
            H26x::H265 => nalu_type == 49,
        }
    }

    /// The header of a fragmentation unit: the NAL unit's own header with its type
    /// replaced, then the type, with the first and the last fragment flagged.
    pub open spec fn fragment_header(self, nalu: Seq<u8>, first: bool, last: bool) -> Seq<u8> {
        let flags: u8 = fragment_flags(first, last);
        match self {
            H26x::H264 => seq![(nalu[0] & 0xe0) | 28u8, flags | (nalu[0] & 0x1f)],
            H26x::H265 => seq![
                (nalu[0] & 0x81) | 98u8,
                nalu[1],
                flags | ((nalu[0] & 0x7e) >> 1),
            ],
        }
    }

    pub fn as_codec(self) -> (codec: Codec)
        ensures
            codec == self.codec(),
    {
        match self {
            H26x::H264 => Codec::H264,
            H26x::H265 => Codec::H265,
        }
    }

    pub fn exec_nal_header_len(self) -> (len: usize)
        ensures
            len == self.nal_header_len(),
    {
        match self {
            H26x::H264 => 1,
            H26x::H265 => 2,
        }
    }

    pub fn exec_fragment_header_len(self) -> (len: usize)
        ensures
            len == self.fragment_header_len(),
    {
        match self {
            H26x::H264 => 2,
            H26x::H265 => 3,
        }
    }

    pub fn exec_nal_type(self, header: u8) -> (nalu_type: u8)
        ensures
            nalu_type == self.nal_type(header),
    {
        match self {
            H26x::H264 => header & 0x1f,
            H26x::H265 => (header >> 1) & 0x3f,
        }
    }

    pub fn is_single_nalu_type(self, nalu_type: u8) -> (answer: bool)
        ensures
            answer == self.is_single(nalu_type),
    {
        match self {
            H26x::H264 => 1 <= nalu_type && nalu_type <= 23,
            H26x::H265 => nalu_type <= 47,
        }
    }

    pub fn is_aggregation_nalu_type(self, nalu_type: u8) -> (answer: bool)
        ensures
            answer == self.is_aggregation(nalu_type),
    {
        match self {
            H26x::H264 => nalu_type == 24,
            H26x::H265 => nalu_type == 48,
        }
    }

    pub fn is_fragment_nalu_type(self, nalu_type: u8) -> (answer: bool)
        ensures
            answer == self.is_fragment(nalu_type),
    {
        match self {
            H26x::H264 => nalu_type == 28,
            H26x::H265 => nalu_type == 49,
        }
    }

    pub fn write_fragment_header(
        self,
        nalu: &[u8],
        first: bool,
        last: bool,
        payload: &mut Vec<u8>,
    )
        requires
            nalu@.len() >= self.nal_header_len(),
        ensures
            final(payload)@ == old(payload)@ + self.fragment_header(nalu@, first, last),
    {
        let flags: u8 = if first && last {
            0xc0
        } else if first {
            0x80
        } else if last {
            0x40
        } else {
            0
        };
        match self {
            H26x::H264 => {
                payload.push((nalu[0] & 0xe0) | 28);
                payload.push(flags | (nalu[0] & 0x1f));
            },
            H26x::H265 => {
                payload.push((nalu[0] & 0x81) | 98);
                payload.push(nalu[1]);
                payload.push(flags | ((nalu[0] & 0x7e) >> 1));
            },
        }
        assert(payload@ =~= old(payload)@ + self.fragment_header(nalu@, first, last));
    }
}

/// The bits that flag the first and the last fragment of a NAL unit.
pub open spec fn fragment_flags(first: bool, last: bool) -> u8 {
    if first && last {
        0xc0
    } else if first {
        0x80
    } else if last {
        0x40
    } else {
        0
    }
}

} // verus!
