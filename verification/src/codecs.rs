//! The codecs as they are announced and numbered on the wire, and the codecs that a
//! session has negotiated.

use crate::codec::{Codec, MediaType};
use crate::errors::UnsupportedCodecError;
use crate::rtp::{payload_type_of_number, RtpPayloadType};
use crate::state::{ConnectionCodecPreferences, SessionDescription};
use crate::text::{ascii_lower, copy_text, same_ignoring_case};
use vstd::prelude::*;

verus! {

pub const VIDEO_CLOCK_RATE_HZ: u32 = 90_000;

pub const OPUS_CLOCK_RATE_HZ: u32 = 48_000;

/// How a codec is announced and numbered.
#[derive(Clone, Copy, Debug, PartialEq, Eq)]
pub struct DiscordCodecDescriptor {
    pub codec: Codec,
    pub wire_name: &'static str,
    pub payload_type: RtpPayloadType,
    pub rtx_payload_type: Option<RtpPayloadType>,
    pub clock_rate_hz: u32,
}

/// The name under which a codec is announced.
pub open spec fn wire_name(codec: Codec) -> &'static str {
    match codec {
        Codec::Opus => "opus",
        Codec::Av1 => "AV1",
        Codec::H265 => "H265",
        Codec::H264 => "H264",
        Codec::Vp8 => "VP8",
        Codec::Vp9 => "VP9",
    }
}

/// The number of a codec's payloads.
pub open spec fn payload_number(codec: Codec) -> u8 {
    match codec {
        Codec::Opus => 120,
        Codec::Av1 => 101,
        Codec::H265 => 105,
        Codec::H264 => 103,
        Codec::Vp8 => 107,
        Codec::Vp9 => 109,
    }
}

/// The number of a codec's retransmitted payloads: only video is retransmitted.
pub open spec fn rtx_number(codec: Codec) -> Option<u8> {
    if codec == Codec::Opus {
        None
    } else {
        Some((payload_number(codec) + 1) as u8)
    }
}

pub open spec fn clock_rate(codec: Codec) -> u32 {
    if codec == Codec::Opus {
        48_000
    } else {
        90_000
    }
}

/// The codec with that payload number.
pub open spec fn codec_numbered(number: u8) -> Option<Codec> {
    if number == 120 {
        Some(Codec::Opus)
    } else if number == 101 {
        Some(Codec::Av1)
    } else if number == 105 {
        Some(Codec::H265)
    } else if number == 103 {
        Some(Codec::H264)
    } else if number == 107 {
        Some(Codec::Vp8)
    } else if number == 109 {
        Some(Codec::Vp9)
    } else {
        None
    }
}

/// The payload number of a codec finds the codec, and no other codec has it.
pub proof fn law_payload_numbers_are_distinct(codec: Codec, number: u8)
    ensures
        codec_numbered(payload_number(codec)) == Some(codec),
        codec_numbered(number) == Some(codec) ==> number == payload_number(codec),
{
}

impl DiscordCodecDescriptor {
    pub fn media_type(self) -> (media_type: MediaType)
        ensures
            media_type == self.codec.media(),
    {
        self.codec.media_type()
    }
}

pub fn descriptor(codec: Codec) -> (descriptor: DiscordCodecDescriptor)
    ensures
        descriptor.codec == codec,
        descriptor.wire_name == wire_name(codec),
        descriptor.payload_type == RtpPayloadType::of(payload_number(codec)),
        descriptor.rtx_payload_type == (match rtx_number(codec) {
            Some(number) => Some(RtpPayloadType::of(number)),
            None => None,
        }),
        descriptor.clock_rate_hz == clock_rate(codec),
{
    match codec {
        Codec::Opus => DiscordCodecDescriptor {
            codec,
            wire_name: "opus",
            payload_type: RtpPayloadType::new_const(120),
            rtx_payload_type: None,
            clock_rate_hz: OPUS_CLOCK_RATE_HZ,
        },
        Codec::Av1 => video_descriptor(codec, "AV1", 101),
        Codec::H265 => video_descriptor(codec, "H265", 105),
        Codec::H264 => video_descriptor(codec, "H264", 103),
        Codec::Vp8 => video_descriptor(codec, "VP8", 107),
        Codec::Vp9 => video_descriptor(codec, "VP9", 109),
    }
}

fn video_descriptor(codec: Codec, name: &'static str, number: u8) -> (descriptor:
    DiscordCodecDescriptor)
    requires
        number < 0x7f,
    ensures
        descriptor.codec == codec,
        descriptor.wire_name == name,
        descriptor.payload_type == RtpPayloadType::of(number),
        descriptor.rtx_payload_type == Some(RtpPayloadType::of((number + 1) as u8)),
        descriptor.clock_rate_hz == 90_000,
{
    DiscordCodecDescriptor {
        codec,
        wire_name: name,
        payload_type: RtpPayloadType::new_const(number),
        rtx_payload_type: Some(RtpPayloadType::new_const(number + 1)),
        clock_rate_hz: VIDEO_CLOCK_RATE_HZ,
    }
}

/// The video codecs, in the order in which they are offered.
pub fn video_codecs() -> (codecs: Vec<Codec>)
    ensures
        codecs@ == seq![Codec::Av1, Codec::H265, Codec::H264, Codec::Vp8, Codec::Vp9],
{
    vec![Codec::Av1, Codec::H265, Codec::H264, Codec::Vp8, Codec::Vp9]
}

pub fn payload_type(codec: Codec) -> (payload_type: RtpPayloadType)
    ensures
        payload_type == RtpPayloadType::of(payload_number(codec)),
{
    descriptor(codec).payload_type
}

pub fn codec_for_payload_type(payload_type: RtpPayloadType) -> (codec: Option<Codec>)
    ensures
        codec == codec_numbered(payload_type@),
{
    let number: u8 = payload_type.get();
    if number == 120 {
        Some(Codec::Opus)
    } else if number == 101 {
        Some(Codec::Av1)
    } else if number == 105 {
        Some(Codec::H265)
    } else if number == 103 {
        Some(Codec::H264)
    } else if number == 107 {
        Some(Codec::Vp8)
    } else if number == 109 {
        Some(Codec::Vp9)
    } else {
        None
    }
}

/// The audio codec that a name means, in any case of its letters.
pub open spec fn audio_codec_named(name: Seq<char>) -> Option<Codec> {
    if same_ignoring_case(name, "opus"@) {
        Some(Codec::Opus)
    } else {
        None
    }
}

/// The video codec that a name means, in any case of its letters.
pub open spec fn video_codec_named(name: Seq<char>) -> Option<Codec> {
    if same_ignoring_case(name, "AV1"@) {
        Some(Codec::Av1)
    } else if same_ignoring_case(name, "H265"@) {
        Some(Codec::H265)
    } else if same_ignoring_case(name, "H264"@) {
        Some(Codec::H264)
    } else if same_ignoring_case(name, "VP8"@) {
        Some(Codec::Vp8)
    } else if same_ignoring_case(name, "VP9"@) {
        Some(Codec::Vp9)
    } else {
        None
    }
}

pub fn audio_codec(name: &str) -> (codec: Option<Codec>)
    ensures
        codec == audio_codec_named(name@),
{
    if name.eq_ignore_ascii_case("opus") {
        Some(Codec::Opus)
    } else {
        None
    }
}

pub fn video_codec(name: &str) -> (codec: Option<Codec>)
    ensures
        codec == video_codec_named(name@),
{
    if name.eq_ignore_ascii_case("AV1") {
        Some(Codec::Av1)
    } else if name.eq_ignore_ascii_case("H265") {
        Some(Codec::H265)
    } else if name.eq_ignore_ascii_case("H264") {
        Some(Codec::H264)
    } else if name.eq_ignore_ascii_case("VP8") {
        Some(Codec::Vp8)
    } else if name.eq_ignore_ascii_case("VP9") {
        Some(Codec::Vp9)
    } else {
        None
    }
}

/// Every codec is found by the name under which it is announced.
pub proof fn law_wire_names_find_their_codecs(codec: Codec)
    ensures
        codec.media() == MediaType::Audio ==> audio_codec_named(wire_name(codec)@) == Some(codec),
        codec.media() == MediaType::Video ==> video_codec_named(wire_name(codec)@) == Some(codec),
{
    reveal_strlit("opus");
    reveal_strlit("AV1");
    reveal_strlit("H265");
    reveal_strlit("H264");
    reveal_strlit("VP8");
    reveal_strlit("VP9");
    if codec == Codec::H265 {
        assert("H265"@[0] != "AV1"@[0]);
    } else if codec == Codec::H264 {
        assert("H264"@[0] != "AV1"@[0]);
        assert(ascii_lower("H264"@[3]) != ascii_lower("H265"@[3]));
    } else if codec == Codec::Vp8 {
        assert(ascii_lower("VP8"@[0]) != ascii_lower("AV1"@[0]));
    } else if codec == Codec::Vp9 {
        assert(ascii_lower("VP9"@[0]) != ascii_lower("AV1"@[0]));
        assert(ascii_lower("VP9"@[2]) != ascii_lower("VP8"@[2]));
    }
}

/// Why a session's codecs are refused: the name that nothing here is called.
pub enum CodecRefusal {
    Audio(Seq<char>),
    Video(Seq<char>),
}

/// The codecs of a session that names an audio and a video codec: the audio codec, which
/// is Opus where none is named, then the preferred video codecs. An unknown name is
/// refused, the audio codec's first.
pub open spec fn session_codecs(
    audio: Option<String>,
    video: Option<String>,
    preferences: Seq<Codec>,
) -> Result<Seq<Codec>, CodecRefusal> {
    match (match audio {
        None => Some(Codec::Opus),
        Some(name) => audio_codec_named(name@),
    }) {
        None => Err(CodecRefusal::Audio(audio->0@)),
        Some(codec) => if video matches Some(name) && video_codec_named(name@) is None {
            Err(CodecRefusal::Video(video->0@))
        } else {
            Ok(seq![codec] + preferences)
        },
    }
}

/// Whether an error says that refusal.
pub open spec fn says_refusal(error: UnsupportedCodecError, refusal: CodecRefusal) -> bool {
    match refusal {
        CodecRefusal::Audio(name) => {
            error matches UnsupportedCodecError::UnsupportedAudioCodec { codec } && codec@ == name
        },
        CodecRefusal::Video(name) => {
            error matches UnsupportedCodecError::UnsupportedVideoCodec { codec } && codec@ == name
        },
    }
}

/// The payload types of a list of codecs.
pub open spec fn payload_types(codecs: Seq<Codec>) -> Seq<RtpPayloadType> {
    codecs.map_values(|codec: Codec| RtpPayloadType::of(payload_number(codec)))
}

/// The codecs that a session receives, found by payload type.
#[derive(Debug, PartialEq, Eq)]
pub struct DiscordRtpCodecMap {
    payload_codecs: [Option<Codec>; 128],
    negotiated: Vec<Codec>,
}

impl View for DiscordRtpCodecMap {
    type V = Seq<Codec>;

    closed spec fn view(&self) -> Seq<Codec> {
        self.negotiated@
    }
}

/// What a table of codecs holds for a list of them.
spec fn holds_exactly(table: Seq<Option<Codec>>, codecs: Seq<Codec>) -> bool {
    &&& table.len() == 128
    &&& forall|i: int|
        0 <= i < 128 ==> #[trigger] table[i] == (match codec_numbered(i as u8) {
            Some(codec) => if codecs.contains(codec) {
                Some(codec)
            } else {
                None
            },
            None => None,
        })
}

/// What comes of a payload type where these codecs were negotiated: one of them, or a
/// refusal, with the codec that has the number if any has.
pub open spec fn detects(
    codecs: Seq<Codec>,
    payload_type: RtpPayloadType,
    codec: Result<Codec, UnsupportedCodecError>,
) -> bool {
    match codec_numbered(payload_type@) {
        Some(known) => if codecs.contains(known) {
            codec == Ok::<Codec, UnsupportedCodecError>(known)
        } else {
            codec matches Err(
                UnsupportedCodecError::UnexpectedRtpPayloadCodec {
                    payload_type: refused,
                    codec: unexpected,
                    expected_payload_types,
                },
            ) && refused == payload_type && unexpected == known
                && expected_payload_types@ == payload_types(codecs)
        },
        None => {
            codec matches Err(
                UnsupportedCodecError::UnsupportedRtpPayloadType {
                    payload_type: refused,
                    expected_payload_types,
                },
            ) && refused == payload_type && expected_payload_types@ == payload_types(codecs)
        },
    }
}

impl DiscordRtpCodecMap {
    #[verifier::type_invariant]
    spec fn valid(self) -> bool {
        holds_exactly(self.payload_codecs@, self.negotiated@)
    }

    /// The codecs of a session.
    pub fn new(
        session_description: &SessionDescription,
        codec_preferences: &ConnectionCodecPreferences,
    ) -> (map: Result<Self, UnsupportedCodecError>)
        ensures
            match session_codecs(
                session_description.audio_codec,
                session_description.video_codec,
                codec_preferences@,
            ) {
                Ok(codecs) => map matches Ok(map) && map@ == codecs,
                Err(refusal) => map matches Err(error) && says_refusal(error, refusal),
            },
    {
        Self::from_names(
            &session_description.audio_codec,
            &session_description.video_codec,
            codec_preferences,
        )
    }

    /// The codecs of a session that names these.
    pub fn from_names(
        audio_name: &Option<String>,
        video_name: &Option<String>,
        codec_preferences: &ConnectionCodecPreferences,
    ) -> (map: Result<Self, UnsupportedCodecError>)
        ensures
            match session_codecs(*audio_name, *video_name, codec_preferences@) {
                Ok(codecs) => map matches Ok(map) && map@ == codecs,
                Err(refusal) => map matches Err(error) && says_refusal(error, refusal),
            },
    {
        let audio = match audio_name {
            None => Codec::Opus,
            Some(name) => match audio_codec(name.as_str()) {
                Some(codec) => codec,
                None => {
                    return Err(
                        UnsupportedCodecError::UnsupportedAudioCodec {
                            codec: copy_text(name.as_str()),
                        },
                    );
                },
            },
        };
        if let Some(name) = video_name {
            if video_codec(name.as_str()).is_none() {
                return Err(
                    UnsupportedCodecError::UnsupportedVideoCodec { codec: copy_text(name.as_str()) },
                );
            }
        }
        let mut payload_codecs: [Option<Codec>; 128] = [None; 128];
        let mut negotiated: Vec<Codec> = Vec::new();
        Self::insert_codec(&mut payload_codecs, &mut negotiated, audio);
        let video = codec_preferences.video_codecs();
        let len = video.len();
        let mut i: usize = 0;
        assert(negotiated@ =~= seq![audio] + video@.take(0));
        while i < len
            invariant
                len == video@.len(),
                i <= len,
                holds_exactly(payload_codecs@, negotiated@),
                negotiated@ == seq![audio] + video@.take(i as int),
            decreases len - i,
        {
            Self::insert_codec(&mut payload_codecs, &mut negotiated, video[i]);
            assert(negotiated@ =~= seq![audio] + video@.take(i + 1));
            i = i + 1;
        }
        assert(video@.take(i as int) =~= video@);
        Ok(DiscordRtpCodecMap { payload_codecs, negotiated })
    }

    /// The codec of a payload type. A payload type is refused that no negotiated codec
    /// has, with the codec if any has it.
    pub fn detect(&self, payload_type: RtpPayloadType) -> (codec: Result<
        Codec,
        UnsupportedCodecError,
    >)
        ensures
            detects(self@, payload_type, codec),
    {
        proof {
            use_type_invariant(self);
        }
        if let Some(codec) = self.payload_codecs[payload_type.index()] {
            return Ok(codec);
        }
        if let Some(codec) = codec_for_payload_type(payload_type) {
            return Err(
                UnsupportedCodecError::UnexpectedRtpPayloadCodec {
                    payload_type,
                    codec,
                    expected_payload_types: self.expected_payload_types(),
                },
            );
        }
        Err(
            UnsupportedCodecError::UnsupportedRtpPayloadType {
                payload_type,
                expected_payload_types: self.expected_payload_types(),
            },
        )
    }

    fn expected_payload_types(&self) -> (expected: Vec<RtpPayloadType>)
        ensures
            expected@ == payload_types(self@),
    {
        let mut expected: Vec<RtpPayloadType> = Vec::new();
        let len = self.negotiated.len();
        let mut i: usize = 0;
        while i < len
            invariant
                len == self.negotiated@.len(),
                i <= len,
                expected@ == payload_types(self.negotiated@.take(i as int)),
            decreases len - i,
        {
            expected.push(payload_type(self.negotiated[i]));
            i = i + 1;
            assert(expected@ =~= payload_types(self.negotiated@.take(i as int)));
        }
        assert(self.negotiated@.take(i as int) =~= self.negotiated@);
        expected
    }

    fn insert_codec(
        payload_codecs: &mut [Option<Codec>; 128],
        negotiated: &mut Vec<Codec>,
        codec: Codec,
    )
        requires
            holds_exactly(old(payload_codecs)@, old(negotiated)@),
        ensures
            holds_exactly(final(payload_codecs)@, final(negotiated)@),
            final(negotiated)@ == old(negotiated)@.push(codec),
    {
        broadcast use payload_type_of_number;

        let index: usize = payload_type(codec).index();
        let ghost before = negotiated@;
        payload_codecs[index] = Some(codec);
        negotiated.push(codec);
        proof {
            law_payload_numbers_are_distinct(codec, index as u8);
            let after = before.push(codec);
            assert(after[before.len() as int] == codec);
            assert forall|i: int| 0 <= i < 128 implies #[trigger] payload_codecs@[i] == (
            match codec_numbered(i as u8) {
                Some(known) => if after.contains(known) {
                    Some(known)
                } else {
                    None
                },
                None => None,
            }) by {
                if let Some(known) = codec_numbered(i as u8) {
                    law_payload_numbers_are_distinct(known, i as u8);
                    if before.contains(known) {
                        let j = choose|j: int| 0 <= j < before.len() && before[j] == known;
                        assert(after[j] == known);
                    }
                    if after.contains(known) && known != codec {
                        let j = choose|j: int| 0 <= j < after.len() && after[j] == known;
                        assert(before[j] == known);
                    }
                }
            }
        }
    }

    /// A second map of the same codecs.
    pub fn copy(&self) -> (copy: Self)
        ensures
            copy@ == self@,
    {
        proof {
            use_type_invariant(self);
        }
        let mut negotiated: Vec<Codec> = Vec::new();
        let len = self.negotiated.len();
        let mut i: usize = 0;
        while i < len
            invariant
                len == self.negotiated@.len(),
                i <= len,
                negotiated@ == self.negotiated@.take(i as int),
            decreases len - i,
        {
            negotiated.push(self.negotiated[i]);
            i = i + 1;
            assert(negotiated@ =~= self.negotiated@.take(i as int));
        }
        assert(negotiated@ =~= self.negotiated@);
        DiscordRtpCodecMap { payload_codecs: self.payload_codecs, negotiated }
    }
}

/// A codec's name finds it in small letters and in capitals, and what a name finds is called
/// so.
pub proof fn law_names_count_in_any_case(name: Seq<char>, codec: Codec)
    ensures
        codec.media() == MediaType::Video ==> (video_codec_named(name) == Some(codec)
            <==> same_ignoring_case(name, wire_name(codec)@)),
        codec.media() == MediaType::Audio ==> (audio_codec_named(name) == Some(codec)
            <==> same_ignoring_case(name, wire_name(codec)@)),
        video_codec_named(name) matches Some(found) ==> found.media() == MediaType::Video,
        audio_codec_named(name) matches Some(found) ==> found.media() == MediaType::Audio,
{
    reveal_strlit("opus");
    reveal_strlit("AV1");
    reveal_strlit("H265");
    reveal_strlit("H264");
    reveal_strlit("VP8");
    reveal_strlit("VP9");
    if name.len() >= 3 {
        assert(name[0] == name[0] && name[2] == name[2]);
    }
    if name.len() == 4 {
        assert(name[3] == name[3]);
    }
    assert(ascii_lower("AV1"@[0]) != ascii_lower("VP8"@[0]));
    assert(ascii_lower("AV1"@[0]) != ascii_lower("VP9"@[0]));
    assert(ascii_lower("VP8"@[2]) != ascii_lower("VP9"@[2]));
    assert(ascii_lower("H265"@[3]) != ascii_lower("H264"@[3]));
    if same_ignoring_case(name, "AV1"@) {
        assert(ascii_lower(name[0]) == ascii_lower("AV1"@[0]));
    }
    if same_ignoring_case(name, "VP8"@) {
        assert(ascii_lower(name[0]) == ascii_lower("VP8"@[0]));
        assert(ascii_lower(name[2]) == ascii_lower("VP8"@[2]));
    }
    if same_ignoring_case(name, "VP9"@) {
        assert(ascii_lower(name[0]) == ascii_lower("VP9"@[0]));
        assert(ascii_lower(name[2]) == ascii_lower("VP9"@[2]));
    }
    if same_ignoring_case(name, "H265"@) {
        assert(ascii_lower(name[3]) == ascii_lower("H265"@[3]));
    }
    if same_ignoring_case(name, "H264"@) {
        assert(ascii_lower(name[3]) == ascii_lower("H264"@[3]));
    }
}

/// Every codec has a number of its own, in the dynamic range, and every video codec the one
/// behind it for what is sent again; no number stands for two things.
pub proof fn law_numbers_do_not_collide(codec: Codec, other: Codec)
    ensures
        96 <= payload_number(codec) <= 127,
        rtx_number(codec) is Some == (codec.media() == MediaType::Video),
        rtx_number(codec) matches Some(rtx) ==> rtx == payload_number(codec) + 1 && rtx <= 127
            && rtx != payload_number(other),
        codec != other ==> payload_number(codec) != payload_number(other),
        codec != other && rtx_number(codec) is Some ==> rtx_number(codec) != rtx_number(other),
{
}

/// The codecs of a session are its audio codec and then all that are preferred, in their
/// order. A session that names no audio codec has Opus, and one is refused exactly where it
/// names a codec that nothing here is called.
pub proof fn law_sessions_have_their_codecs(
    audio: Option<String>,
    video: Option<String>,
    preferences: Seq<Codec>,
)
    ensures
        session_codecs(audio, video, preferences) matches Ok(codecs) ==> codecs.len()
            == preferences.len() + 1 && codecs[0] == Codec::Opus && codecs.skip(1) == preferences,
        session_codecs(audio, video, preferences) is Ok <==> {
            &&& audio matches Some(name) ==> same_ignoring_case(name@, "opus"@)
            &&& video matches Some(name) ==> exists|codec: Codec|
                codec.media() == MediaType::Video && #[trigger] same_ignoring_case(
                    name@,
                    wire_name(codec)@,
                )
        },
        session_codecs(audio, video, preferences) matches Err(CodecRefusal::Audio(name))
            ==> audio is Some && name == audio->0@,
        session_codecs(audio, video, preferences) matches Err(CodecRefusal::Video(name))
            ==> video is Some && name == video->0@,
{
    if let Ok(codecs) = session_codecs(audio, video, preferences) {
        assert(codecs.skip(1) =~= preferences);
    }
    if let Some(name) = video {
        match video_codec_named(name@) {
            Some(codec) => {
                law_names_count_in_any_case(name@, codec);
                assert(same_ignoring_case(name@, wire_name(codec)@));
            },
            None => {
                assert forall|codec: Codec| codec.media() == MediaType::Video implies
                    !#[trigger] same_ignoring_case(name@, wire_name(codec)@) by {
                    law_names_count_in_any_case(name@, codec);
                }
            },
        }
    }
    if let Some(name) = audio {
        law_names_count_in_any_case(name@, Codec::Opus);
    }
}

/// A packet is of the codec whose number it has, where that one was agreed on, and of none
/// otherwise.
pub proof fn law_codecs_are_told_by_their_numbers(
    codecs: Seq<Codec>,
    payload_type: RtpPayloadType,
    detected: Result<Codec, UnsupportedCodecError>,
)
    requires
        detects(codecs, payload_type, detected),
    ensures
        detected matches Ok(codec) ==> codecs.contains(codec) && payload_number(codec)
            == payload_type@,
        detected is Err ==> forall|codec: Codec|
            codecs.contains(codec) ==> #[trigger] payload_number(codec) != payload_type@,
{
    if detected is Err {
        assert forall|codec: Codec| codecs.contains(codec) implies #[trigger] payload_number(codec)
            != payload_type@ by {
            law_payload_numbers_are_distinct(codec, payload_type@);
        }
    }
}

} // verus!
