//! Media codecs, and the framing that their encoded frames share.

use vstd::prelude::*;

verus! {

/// What kind of media a codec carries.
#[derive(Clone, Copy, Debug, PartialEq, Eq, Structural)]
pub enum MediaType {
    Audio,
    Video,
}

/// The codecs that a voice connection can negotiate.
#[derive(Clone, Copy, Debug, PartialEq, Eq, Structural)]
pub enum Codec {
    Opus,
    Vp8,
    Vp9,
    H264,
    H265,
    Av1,
}

impl MediaType {
    pub open spec fn name(self) -> Seq<char> {
        match self {
            MediaType::Audio => "audio"@,
            MediaType::Video => "video"@,
        }
    }

    pub fn as_str(self) -> (text: &'static str)
        ensures
            text@ == self.name(),
    {
        match self {
            MediaType::Audio => "audio",
            MediaType::Video => "video",
        }
    }
}

impl Codec {
    pub open spec fn name(self) -> Seq<char> {
        match self {
            Codec::Opus => "opus"@,
            Codec::Vp8 => "vp8"@,
            Codec::Vp9 => "vp9"@,
            Codec::H264 => "h264"@,
            Codec::H265 => "h265"@,
            Codec::Av1 => "av1"@,
        }
    }

    pub fn as_str(self) -> (text: &'static str)
        ensures
            text@ == self.name(),
    {
        match self {
            Codec::Opus => "opus",
            Codec::Vp8 => "vp8",
            Codec::Vp9 => "vp9",
            Codec::H264 => "h264",
            Codec::H265 => "h265",
            Codec::Av1 => "av1",
        }
    }

    /// Opus is audio; every other codec is video.
    pub open spec fn media(self) -> MediaType {
        if self == Codec::Opus {
            MediaType::Audio
        } else {
            MediaType::Video
        }
    }

    pub fn media_type(self) -> (media_type: MediaType)
        ensures
            media_type == self.media(),
    {
        match self {
            Codec::Opus => MediaType::Audio,
            _ => MediaType::Video,
        }
    }
}

} // verus!
