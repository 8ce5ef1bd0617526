//! Errors in words.

use super::{
    BackpressureError, ConnectionJoinError, DaveDecryptError, DaveError, DaveGatewayPayloadError,
    DaveProposalsPayloadError, DecryptError, Error, FrameDecryptError, InvalidInputError,
    OpusError, OpusOperation, PayloadKind, PcmError, ProtocolError, RtpError,
    TransportCryptoDirection, TransportCryptoError, UnsupportedCodecError,
};
use crate::codec::Codec;
use crate::rtp::RtpPayloadType;
use crate::state::OfferedEncryptionMode;
use crate::text::{append_decimal, decimal};
use crate::time::Duration;
use vstd::prelude::*;

verus! {

/// How the standard library shows a text in quotes (the `Debug` of `str`).
pub uninterp spec fn debug_text(text: Seq<char>) -> Seq<char>;

/// How the standard library shows a span of time (the `Debug` of `std::time::Duration`).
/// The span is so many seconds and, beyond them, nanoseconds.
pub uninterp spec fn debug_span(secs: u64, nanos: u32) -> Seq<char>;

/// `format!` with the `Debug` of `str`: the text in quotes, with escapes where they are
/// needed. It depends on the text alone.
#[verifier::external_body]
fn quoted_text(text: &str) -> (shown: String)
    ensures
        shown@ == debug_text(text@),
{
    format!("{text:?}")
}

/// `format!` with the `Debug` of `std::time::Duration`: the span in the largest unit that is
/// not below one. It depends on the span alone.
#[verifier::external_body]
fn span_text(secs: u64, nanos: u32) -> (shown: String)
    requires
        nanos < 1_000_000_000,
    ensures
        shown@ == debug_span(secs, nanos),
{
    format!("{:?}", std::time::Duration::new(secs, nanos))
}

/// A span of time as it is shown.
pub open spec fn shown_span(duration: Duration) -> Seq<char> {
    debug_span(duration.in_secs(), duration.beyond_secs())
}

/// Names in quotes, with commas between them.
pub open spec fn mode_names(modes: Seq<OfferedEncryptionMode>) -> Seq<char>
    decreases modes.len(),
{
    if modes.len() == 0 {
        seq![]
    } else if modes.len() == 1 {
        debug_text(modes[0]@)
    } else {
        mode_names(modes.drop_last()) + ", "@ + debug_text(modes.last()@)
    }
}

pub open spec fn mode_list(modes: Seq<OfferedEncryptionMode>) -> Seq<char> {
    "["@ + mode_names(modes) + "]"@
}

fn append_modes(text: &mut String, modes: &Vec<OfferedEncryptionMode>)
    ensures
        final(text)@ == old(text)@ + mode_list(modes@),
{
    let ghost before = text@;
    text.append("[");
    let len = modes.len();
    let mut i: usize = 0;
    assert(text@ =~= before + "["@ + mode_names(modes@.take(0)));
    while i < len
        invariant
            len == modes@.len(),
            i <= len,
            text@ == before + "["@ + mode_names(modes@.take(i as int)),
        decreases len - i,
    {
        if i > 0 {
            text.append(", ");
        }
        let shown = quoted_text(modes[i].as_str());
        text.append(shown.as_str());
        assert(modes@.take(i + 1).drop_last() =~= modes@.take(i as int));
        i = i + 1;
        assert(text@ =~= before + "["@ + mode_names(modes@.take(i as int)));
    }
    assert(modes@.take(len as int) =~= modes@);
    text.append("]");
    assert(text@ =~= before + mode_list(modes@));
}

/// Texts, with semicolons between them.
pub open spec fn joined(texts: Seq<String>) -> Seq<char>
    decreases texts.len(),
{
    if texts.len() == 0 {
        seq![]
    } else if texts.len() == 1 {
        texts[0]@
    } else {
        joined(texts.drop_last()) + "; "@ + texts.last()@
    }
}

fn append_joined(text: &mut String, texts: &Vec<String>)
    ensures
        final(text)@ == old(text)@ + joined(texts@),
{
    let ghost before = text@;
    let len = texts.len();
    let mut i: usize = 0;
    assert(text@ =~= before + joined(texts@.take(0)));
    while i < len
        invariant
            len == texts@.len(),
            i <= len,
            text@ == before + joined(texts@.take(i as int)),
        decreases len - i,
    {
        if i > 0 {
            text.append("; ");
        }
        text.append(texts[i].as_str());
        assert(texts@.take(i + 1).drop_last() =~= texts@.take(i as int));
        i = i + 1;
        assert(text@ =~= before + joined(texts@.take(i as int)));
    }
    assert(texts@.take(len as int) =~= texts@);
}

/// A codec that may be missing, by the name of its variant.
pub open spec fn codec_words(codec: Option<Codec>) -> Seq<char> {
    match codec {
        None => "None"@,
        Some(Codec::Opus) => "Some(Opus)"@,
        Some(Codec::Vp8) => "Some(Vp8)"@,
        Some(Codec::Vp9) => "Some(Vp9)"@,
        Some(Codec::H264) => "Some(H264)"@,
        Some(Codec::H265) => "Some(H265)"@,
        Some(Codec::Av1) => "Some(Av1)"@,
    }
}

fn append_codec(text: &mut String, codec: Option<Codec>)
    ensures
        final(text)@ == old(text)@ + codec_words(codec),
{
    text.append(
        match codec {
            None => "None",
            Some(Codec::Opus) => "Some(Opus)",
            Some(Codec::Vp8) => "Some(Vp8)",
            Some(Codec::Vp9) => "Some(Vp9)",
            Some(Codec::H264) => "Some(H264)",
            Some(Codec::H265) => "Some(H265)",
            Some(Codec::Av1) => "Some(Av1)",
        },
    );
}

/// Payload types by their numbers, with commas between them.
pub open spec fn payload_type_names(types: Seq<RtpPayloadType>) -> Seq<char>
    decreases types.len(),
{
    if types.len() == 0 {
        seq![]
    } else if types.len() == 1 {
        "RtpPayloadType("@ + decimal(types[0]@ as nat) + ")"@
    } else {
        payload_type_names(types.drop_last()) + ", "@ + "RtpPayloadType("@ + decimal(
            types.last()@ as nat,
        ) + ")"@
    }
}

pub open spec fn payload_type_list(types: Seq<RtpPayloadType>) -> Seq<char> {
    "["@ + payload_type_names(types) + "]"@
}

fn append_payload_types(text: &mut String, types: &Vec<RtpPayloadType>)
    ensures
        final(text)@ == old(text)@ + payload_type_list(types@),
{
    let ghost before = text@;
    text.append("[");
    let len = types.len();
    let mut i: usize = 0;
    assert(text@ =~= before + "["@ + payload_type_names(types@.take(0)));
    while i < len
        invariant
            len == types@.len(),
            i <= len,
            text@ == before + "["@ + payload_type_names(types@.take(i as int)),
        decreases len - i,
    {
        if i > 0 {
            text.append(", ");
        }
        text.append("RtpPayloadType(");
        append_decimal(text, types[i].get() as u64);
        text.append(")");
        assert(types@.take(i + 1).drop_last() =~= types@.take(i as int));
        i = i + 1;
        assert(text@ =~= before + "["@ + payload_type_names(types@.take(i as int)));
    }
    assert(types@.take(len as int) =~= types@);
    text.append("]");
    assert(text@ =~= before + payload_type_list(types@));
}

impl PcmError {
    /// The error in words.
    pub open spec fn words(self) -> Seq<char>
    {
        match self {
            PcmError::SampleRateZero => "PCM sample rate must be greater than zero"@,
            PcmError::ChannelCountZero => "PCM channel count must be greater than zero"@,
            PcmError::SampleAlignment { encoding, byte_len, sample_bytes } => encoding@
                + " PCM byte length "@ + decimal(byte_len as nat) + " is not aligned to "@
                + decimal(sample_bytes as nat) + "-byte samples"@,
            PcmError::ChannelAlignment { channels, samples } => "PCM sample count "@
                + decimal(samples as nat) + " is not aligned to "@ + decimal(channels as nat)
                + " channels"@,
            PcmError::UnsupportedEncoding(name) => "PCM encoding `"@
                + name@ + "` is not supported"@,
            PcmError::ResamplerChunkFramesZero => {
                "PCM resampler chunk frame count must be greater than zero"@
            },
            PcmError::ResamplerNotInitialized => "PCM resampler is not initialized"@,
            PcmError::Resampler(reason) => "PCM resampler error: "@ + reason@,
        }
    }

    pub fn message(&self) -> (text: String)
        ensures
            text@ == self.words(),
    {
        let mut text = String::new();
        match self {
            PcmError::SampleRateZero => {
                text.append("PCM sample rate must be greater than zero");
            },
            PcmError::ChannelCountZero => {
                text.append("PCM channel count must be greater than zero");
            },
            PcmError::SampleAlignment { encoding, byte_len, sample_bytes } => {
                text.append(*encoding);
                text.append(" PCM byte length ");
                append_decimal(&mut text, *byte_len as u64);
                text.append(" is not aligned to ");
                append_decimal(&mut text, *sample_bytes as u64);
                text.append("-byte samples");
            },
            PcmError::ChannelAlignment { channels, samples } => {
                text.append("PCM sample count ");
                append_decimal(&mut text, *samples as u64);
                text.append(" is not aligned to ");
                append_decimal(&mut text, *channels as u64);
                text.append(" channels");
            },
            PcmError::UnsupportedEncoding(name) => {
                text.append("PCM encoding `");
                text.append(name.as_str());
                text.append("` is not supported");
            },
            PcmError::ResamplerChunkFramesZero => {
                text.append("PCM resampler chunk frame count must be greater than zero");
            },
            PcmError::ResamplerNotInitialized => {
                text.append("PCM resampler is not initialized");
            },
            PcmError::Resampler(reason) => {
                text.append("PCM resampler error: ");
                text.append(reason.as_str());
            },
        }
        assert(text@ =~= self.words());
        text
    }
}

impl InvalidInputError {
    /// The error in words.
    pub open spec fn words(self) -> Seq<char>
    {
        match self {
            InvalidInputError::ConnectionTuningZero { field } => "connection tuning field "@
                + field@ + " must be greater than zero"@,
            InvalidInputError::ConnectionTuningTooSmall { field, min, actual } => "connection tuning field "@
                + field@ + " must be at least "@ + decimal(min as nat) + ", got "@
                + decimal(actual as nat),
            InvalidInputError::ConnectionTuningDurationZero { field } => "connection tuning duration "@
                + field@ + " must be nonzero"@,
            InvalidInputError::UnsupportedGatewayVersion { version } => "Discord voice gateway version "@
                + decimal(version as nat) + " is unsupported"@,
            InvalidInputError::VideoCodecPreferenceNotVideo { codec } => codec.name()
                + " cannot be configured as a Discord video codec"@,
            InvalidInputError::DuplicateVideoCodecPreference { codec } => codec.name()
                + " appears more than once in Discord video codec preferences"@,
            InvalidInputError::ZeroMaxLen => "max_len must be greater than zero"@,
            InvalidInputError::EmptyPayload { codec } => codec.name() + " frame must not be empty"@,
            InvalidInputError::PcmBlockSampleCount { expected, actual } => "Discord PCM block must contain "@
                + decimal(expected as nat) + " interleaved f32 samples, got "@
                + decimal(actual as nat),
            InvalidInputError::PcmBlockFrameCount { expected, actual } => "Discord PCM block must contain "@
                + decimal(expected as nat) + " samples per channel, got "@
                + decimal(actual as nat),
            InvalidInputError::PcmArchiveEmpty => "captured PCM audio must not be empty"@,
            InvalidInputError::OggOpusVendorEmpty => "Ogg Opus vendor must not be empty"@,
            InvalidInputError::OggOpusUnsupportedSampleRate { sample_rate_hz } => "Ogg Opus archive encoding does not support "@
                + decimal(sample_rate_hz as nat) + " Hz captured audio"@,
            InvalidInputError::DiscordPcmMixedSampleRates { existing, actual } => "Discord PCM playback received mixed sample rates: "@
                + decimal(existing as nat) + " and "@ + decimal(actual as nat),
            InvalidInputError::DiscordPcmMixedChannelCounts { existing, actual } => "Discord PCM playback received mixed channel counts: "@
                + decimal(existing as nat) + " and "@ + decimal(actual as nat),
            InvalidInputError::DiscordPcmMixedEncoding => {
                "Discord PCM playback received mixed PCM encodings"@
            },
            InvalidInputError::DiscordPcmEncoderUninitialized => {
                "Discord PCM encoder was not initialized"@
            },
            InvalidInputError::OpusBitrateTooLarge { bitrate_bps } => "Opus bitrate "@
                + decimal(bitrate_bps as nat) + " bps exceeds the encoder limit"@,
            InvalidInputError::OpusOutputBufferTooSmall { min_len, len } => "Opus output buffer must be at least "@
                + decimal(min_len as nat) + " bytes, got "@ + decimal(len as nat),
        }
    }

    pub fn message(&self) -> (text: String)
        ensures
            text@ == self.words(),
    {
        let mut text = String::new();
        match self {
            InvalidInputError::ConnectionTuningZero { field } => {
                text.append("connection tuning field ");
                text.append(*field);
                text.append(" must be greater than zero");
            },
            InvalidInputError::ConnectionTuningTooSmall { field, min, actual } => {
                text.append("connection tuning field ");
                text.append(*field);
                text.append(" must be at least ");
                append_decimal(&mut text, *min as u64);
                text.append(", got ");
                append_decimal(&mut text, *actual as u64);
            },
            InvalidInputError::ConnectionTuningDurationZero { field } => {
                text.append("connection tuning duration ");
                text.append(*field);
                text.append(" must be nonzero");
            },
            InvalidInputError::UnsupportedGatewayVersion { version } => {
                text.append("Discord voice gateway version ");
                append_decimal(&mut text, *version as u64);
                text.append(" is unsupported");
            },
            InvalidInputError::VideoCodecPreferenceNotVideo { codec } => {
                text.append(codec.as_str());
                text.append(" cannot be configured as a Discord video codec");
            },
            InvalidInputError::DuplicateVideoCodecPreference { codec } => {
                text.append(codec.as_str());
                text.append(" appears more than once in Discord video codec preferences");
            },
            InvalidInputError::ZeroMaxLen => {
                text.append("max_len must be greater than zero");
            },
            InvalidInputError::EmptyPayload { codec } => {
                text.append(codec.as_str());
                text.append(" frame must not be empty");
            },
            InvalidInputError::PcmBlockSampleCount { expected, actual } => {
                text.append("Discord PCM block must contain ");
                append_decimal(&mut text, *expected as u64);
                text.append(" interleaved f32 samples, got ");
                append_decimal(&mut text, *actual as u64);
            },
            InvalidInputError::PcmBlockFrameCount { expected, actual } => {
                text.append("Discord PCM block must contain ");
                append_decimal(&mut text, *expected as u64);
                text.append(" samples per channel, got ");
                append_decimal(&mut text, *actual as u64);
            },
            InvalidInputError::PcmArchiveEmpty => {
                text.append("captured PCM audio must not be empty");
            },
            InvalidInputError::OggOpusVendorEmpty => {
                text.append("Ogg Opus vendor must not be empty");
            },
            InvalidInputError::OggOpusUnsupportedSampleRate { sample_rate_hz } => {
                text.append("Ogg Opus archive encoding does not support ");
                append_decimal(&mut text, *sample_rate_hz as u64);
                text.append(" Hz captured audio");
            },
            InvalidInputError::DiscordPcmMixedSampleRates { existing, actual } => {
                text.append("Discord PCM playback received mixed sample rates: ");
                append_decimal(&mut text, *existing as u64);
                text.append(" and ");
                append_decimal(&mut text, *actual as u64);
            },
            InvalidInputError::DiscordPcmMixedChannelCounts { existing, actual } => {
                text.append("Discord PCM playback received mixed channel counts: ");
                append_decimal(&mut text, *existing as u64);
                text.append(" and ");
                append_decimal(&mut text, *actual as u64);
            },
            InvalidInputError::DiscordPcmMixedEncoding => {
                text.append("Discord PCM playback received mixed PCM encodings");
            },
            InvalidInputError::DiscordPcmEncoderUninitialized => {
                text.append("Discord PCM encoder was not initialized");
            },
            InvalidInputError::OpusBitrateTooLarge { bitrate_bps } => {
                text.append("Opus bitrate ");
                append_decimal(&mut text, *bitrate_bps as u64);
                text.append(" bps exceeds the encoder limit");
            },
            InvalidInputError::OpusOutputBufferTooSmall { min_len, len } => {
                text.append("Opus output buffer must be at least ");
                append_decimal(&mut text, *min_len as u64);
                text.append(" bytes, got ");
                append_decimal(&mut text, *len as u64);
            },
        }
        assert(text@ =~= self.words());
        text
    }
}

impl ProtocolError {
    /// The error in words.
    pub open spec fn words(self) -> Seq<char>
    {
        match self {
            ProtocolError::TextPayloadRequiresBinaryDaveMlsCommand => {
                "DAVE MLS key package and commit/welcome use binary websocket frames"@
            },
            ProtocolError::UdpDiscoveryPacketTooShort { len, min_len } => "voice discovery packet must be at least "@
                + decimal(min_len as nat) + " bytes, got "@ + decimal(len as nat),
            ProtocolError::UnexpectedUdpDiscoveryPacketType { packet_type, expected_packet_type } => "unexpected voice discovery packet type "@
                + decimal(packet_type as nat) + "; expected "@
                + decimal(expected_packet_type as nat),
            ProtocolError::UnexpectedUdpDiscoveryPacketLen { packet_len, expected_packet_len } => "unexpected voice discovery packet length "@
                + decimal(packet_len as nat) + "; expected "@
                + decimal(expected_packet_len as nat),
            ProtocolError::InvalidUdpDiscoveryIp { valid_up_to, error_len } => "invalid voice discovery ip: "@
                + (match error_len {
                Some(error_len) => "invalid utf-8 sequence of "@ + decimal(error_len as nat)
                    + " bytes from index "@,
                None => "incomplete utf-8 byte sequence from index "@,
            }) + decimal(valid_up_to as nat),
            ProtocolError::ReadyMissingEncryptionModes => {
                "voice ready payload did not include encryption modes"@
            },
            ProtocolError::RequiredEncryptionModeUnavailable { required_mode, modes } => "required voice encryption mode "@
                + required_mode.name() + " was not offered: "@ + mode_list(modes@),
            ProtocolError::ReadyMissingSupportedEncryptionMode { modes } => "voice ready payload did not include a supported encryption mode: "@
                + mode_list(modes@),
            ProtocolError::ResolveWebSocketEndpoint { host, port, source } => "resolve voice websocket endpoint "@
                + host@ + ":"@ + decimal(port as nat) + ": "@ + source@,
            ProtocolError::WebSocketEndpointNoAddresses { host, port } => "voice websocket endpoint "@
                + host@ + ":"@ + decimal(port as nat) + " did not resolve to any addresses"@,
            ProtocolError::WebSocketAddressConnectTimeout { address, duration } => "voice websocket connect to "@
                + address@ + " timed out after "@ + shown_span(duration),
            ProtocolError::WebSocketAllAddressesFailed { host, port, address_count, errors } => "voice websocket connect to "@
                + host@ + ":"@ + decimal(port as nat) + " failed across "@
                + decimal(address_count as nat) + " resolved addresses: "@ + joined(errors@),
            ProtocolError::TcpConnect { address, source } => "tcp connect "@
                + address@ + ": "@ + source@,
            ProtocolError::WebSocketUrlMissingHost => "voice websocket URL did not include a host"@,
            ProtocolError::WebSocketUrlMissingUsableScheme => {
                "voice websocket URL did not include a usable scheme"@
            },
            ProtocolError::InvalidDiscordVoiceUdpIp { remote_ip, source } => "invalid Discord voice UDP IP "@
                + debug_text(remote_ip@) + ": "@ + source@,
            ProtocolError::HeartbeatAckTimeout => "voice heartbeat ACK timed out"@,
            ProtocolError::MissingSessionDescription => "missing voice session description"@,
            ProtocolError::MediaCodecNotNegotiated { codec, negotiated_codec } => "Discord voice session did not negotiate "@
                + codec.name() + " transmission; negotiated "@ + codec_words(negotiated_codec),
            ProtocolError::MissingVideoSsrc { codec } => "Discord voice ready payload did not include a video SSRC for "@
                + codec.name(),
        }
    }

    pub fn message(&self) -> (text: String)
        ensures
            text@ == self.words(),
    {
        let mut text = String::new();
        match self {
            ProtocolError::TextPayloadRequiresBinaryDaveMlsCommand => {
                text.append("DAVE MLS key package and commit/welcome use binary websocket frames");
            },
            ProtocolError::UdpDiscoveryPacketTooShort { len, min_len } => {
                text.append("voice discovery packet must be at least ");
                append_decimal(&mut text, *min_len as u64);
                text.append(" bytes, got ");
                append_decimal(&mut text, *len as u64);
            },
            ProtocolError::UnexpectedUdpDiscoveryPacketType { packet_type, expected_packet_type } => {
                text.append("unexpected voice discovery packet type ");
                append_decimal(&mut text, *packet_type as u64);
                text.append("; expected ");
                append_decimal(&mut text, *expected_packet_type as u64);
            },
            ProtocolError::UnexpectedUdpDiscoveryPacketLen { packet_len, expected_packet_len } => {
                text.append("unexpected voice discovery packet length ");
                append_decimal(&mut text, *packet_len as u64);
                text.append("; expected ");
                append_decimal(&mut text, *expected_packet_len as u64);
            },
            ProtocolError::InvalidUdpDiscoveryIp { valid_up_to, error_len } => {
                text.append("invalid voice discovery ip: ");
                match error_len {
                    Some(error_len) => {
                        text.append("invalid utf-8 sequence of ");
                        append_decimal(&mut text, *error_len as u64);
                        text.append(" bytes from index ");
                    },
                    None => {
                        text.append("incomplete utf-8 byte sequence from index ");
                    },
                }
                append_decimal(&mut text, *valid_up_to as u64);
            },
            ProtocolError::ReadyMissingEncryptionModes => {
                text.append("voice ready payload did not include encryption modes");
            },
            ProtocolError::RequiredEncryptionModeUnavailable { required_mode, modes } => {
                text.append("required voice encryption mode ");
                text.append(required_mode.as_str());
                text.append(" was not offered: ");
                append_modes(&mut text, modes);
            },
            ProtocolError::ReadyMissingSupportedEncryptionMode { modes } => {
                text.append("voice ready payload did not include a supported encryption mode: ");
                append_modes(&mut text, modes);
            },
            ProtocolError::ResolveWebSocketEndpoint { host, port, source } => {
                text.append("resolve voice websocket endpoint ");
                text.append(host.as_str());
                text.append(":");
                append_decimal(&mut text, *port as u64);
                text.append(": ");
                text.append(source.as_str());
            },
            ProtocolError::WebSocketEndpointNoAddresses { host, port } => {
                text.append("voice websocket endpoint ");
                text.append(host.as_str());
                text.append(":");
                append_decimal(&mut text, *port as u64);
                text.append(" did not resolve to any addresses");
            },
            ProtocolError::WebSocketAddressConnectTimeout { address, duration } => {
                text.append("voice websocket connect to ");
                text.append(address.as_str());
                text.append(" timed out after ");
                let shown = span_text(duration.as_secs(), duration.subsec_nanos());
                text.append(shown.as_str());
            },
            ProtocolError::WebSocketAllAddressesFailed { host, port, address_count, errors } => {
                text.append("voice websocket connect to ");
                text.append(host.as_str());
                text.append(":");
                append_decimal(&mut text, *port as u64);
                text.append(" failed across ");
                append_decimal(&mut text, *address_count as u64);
                text.append(" resolved addresses: ");
                append_joined(&mut text, errors);
            },
            ProtocolError::TcpConnect { address, source } => {
                text.append("tcp connect ");
                text.append(address.as_str());
                text.append(": ");
                text.append(source.as_str());
            },
            ProtocolError::WebSocketUrlMissingHost => {
                text.append("voice websocket URL did not include a host");
            },
            ProtocolError::WebSocketUrlMissingUsableScheme => {
                text.append("voice websocket URL did not include a usable scheme");
            },
            ProtocolError::InvalidDiscordVoiceUdpIp { remote_ip, source } => {
                text.append("invalid Discord voice UDP IP ");
                let shown = quoted_text(remote_ip.as_str());
                text.append(shown.as_str());
                text.append(": ");
                text.append(source.as_str());
            },
            ProtocolError::HeartbeatAckTimeout => {
                text.append("voice heartbeat ACK timed out");
            },
            ProtocolError::MissingSessionDescription => {
                text.append("missing voice session description");
            },
            ProtocolError::MediaCodecNotNegotiated { codec, negotiated_codec } => {
                text.append("Discord voice session did not negotiate ");
                text.append(codec.as_str());
                text.append(" transmission; negotiated ");
                append_codec(&mut text, *negotiated_codec);
            },
            ProtocolError::MissingVideoSsrc { codec } => {
                text.append("Discord voice ready payload did not include a video SSRC for ");
                text.append(codec.as_str());
            },
        }
        assert(text@ =~= self.words());
        text
    }
}

impl OpusOperation {
    /// The error in words.
    pub open spec fn words(self) -> Seq<char>
    {
        match self {
            OpusOperation::CreateEncoder => "create Opus encoder"@,
            OpusOperation::EncodeFrame => "encode Opus frame"@,
            OpusOperation::CreateMonoDecoder => "create mono Opus decoder"@,
            OpusOperation::CreateDecoder => "create Opus decoder"@,
            OpusOperation::DecodeFrame => "decode Opus frame"@,
        }
    }

    pub fn message(&self) -> (text: String)
        ensures
            text@ == self.words(),
    {
        let mut text = String::new();
        match self {
            OpusOperation::CreateEncoder => {
                text.append("create Opus encoder");
            },
            OpusOperation::EncodeFrame => {
                text.append("encode Opus frame");
            },
            OpusOperation::CreateMonoDecoder => {
                text.append("create mono Opus decoder");
            },
            OpusOperation::CreateDecoder => {
                text.append("create Opus decoder");
            },
            OpusOperation::DecodeFrame => {
                text.append("decode Opus frame");
            },
        }
        assert(text@ =~= self.words());
        text
    }
}

impl OpusError {
    /// The error in words.
    pub open spec fn words(self) -> Seq<char>
    {
        match self {
            OpusError::OperationFailed { operation, reason } => "failed to "@
                + operation.words() + ": "@ + reason@,
            OpusError::UnsupportedVoiceCodec { codec } => "unsupported voice codec "@
                + codec.name(),
            OpusError::UnsupportedChannelCount { channels } => "unsupported Opus channel count "@
                + decimal(channels as nat),
            OpusError::InvalidPacket { reason } => "invalid Opus packet: "@ + reason@,
            OpusError::UnsupportedDiscordPacketDuration { expected_samples_per_channel, actual_samples_per_channel } => "Discord Opus packet must contain "@
                + decimal(expected_samples_per_channel as nat) + " samples per channel, got "@
                + decimal(actual_samples_per_channel as nat),
            OpusError::ResamplerNotInitialized => "Opus resampler is not initialized"@,
            OpusError::Resampler(reason) => "Opus resampler error: "@ + reason@,
            OpusError::EmptyFrame => "Opus frame is empty"@,
            OpusError::OggOpusEmpty => "Ogg Opus asset is empty"@,
            OpusError::OggOpusRead(reason) => "failed to read Ogg Opus packet: "@ + reason@,
            OpusError::OggOpusNoPackets => "Ogg Opus asset contains no packets"@,
            OpusError::OggOpusHeaderNotStart => {
                "first Ogg Opus packet is not marked as the start of stream"@
            },
            OpusError::OggOpusMissingHead => "Ogg stream is not Opus"@,
            OpusError::OggOpusUnsupportedVersion { version } => "unsupported OpusHead version "@
                + decimal(version as nat),
            OpusError::OggOpusUnsupportedChannelCount { channels } => "Ogg Opus channel count must be 1 or 2, got "@
                + decimal(channels as nat),
            OpusError::OggOpusUnsupportedMappingFamily { mapping_family } => "Ogg Opus mapping family must be 0, got "@
                + decimal(mapping_family as nat),
            OpusError::OggOpusMissingTags => "Ogg Opus asset is missing OpusTags packet"@,
            OpusError::OggOpusMultipleLogicalStreams => {
                "Ogg Opus asset contains multiple logical streams"@
            },
            OpusError::OggOpusNoAudioPackets => "Ogg Opus asset contains no audio packets"@,
            OpusError::OggOpusNoAudioAfterPreSkip => {
                "Ogg Opus asset contains no audio after pre-skip"@
            },
            OpusError::OggOpusDecodedEmpty => "Ogg Opus asset decoded to empty audio"@,
            OpusError::OggOpusOutputSampleRateTooLarge { sample_rate_hz } => "Ogg Opus output sample rate "@
                + decimal(sample_rate_hz as nat) + " exceeds the decoder limit"@,
        }
    }

    pub fn message(&self) -> (text: String)
        ensures
            text@ == self.words(),
    {
        let mut text = String::new();
        match self {
            OpusError::OperationFailed { operation, reason } => {
                text.append("failed to ");
                let inner = operation.message();
                text.append(inner.as_str());
                text.append(": ");
                text.append(*reason);
            },
            OpusError::UnsupportedVoiceCodec { codec } => {
                text.append("unsupported voice codec ");
                text.append(codec.as_str());
            },
            OpusError::UnsupportedChannelCount { channels } => {
                text.append("unsupported Opus channel count ");
                append_decimal(&mut text, *channels as u64);
            },
            OpusError::InvalidPacket { reason } => {
                text.append("invalid Opus packet: ");
                text.append(*reason);
            },
            OpusError::UnsupportedDiscordPacketDuration { expected_samples_per_channel, actual_samples_per_channel } => {
                text.append("Discord Opus packet must contain ");
                append_decimal(&mut text, *expected_samples_per_channel as u64);
                text.append(" samples per channel, got ");
                append_decimal(&mut text, *actual_samples_per_channel as u64);
            },
            OpusError::ResamplerNotInitialized => {
                text.append("Opus resampler is not initialized");
            },
            OpusError::Resampler(reason) => {
                text.append("Opus resampler error: ");
                text.append(reason.as_str());
            },
            OpusError::EmptyFrame => {
                text.append("Opus frame is empty");
            },
            OpusError::OggOpusEmpty => {
                text.append("Ogg Opus asset is empty");
            },
            OpusError::OggOpusRead(reason) => {
                text.append("failed to read Ogg Opus packet: ");
                text.append(reason.as_str());
            },
            OpusError::OggOpusNoPackets => {
                text.append("Ogg Opus asset contains no packets");
            },
            OpusError::OggOpusHeaderNotStart => {
                text.append("first Ogg Opus packet is not marked as the start of stream");
            },
            OpusError::OggOpusMissingHead => {
                text.append("Ogg stream is not Opus");
            },
            OpusError::OggOpusUnsupportedVersion { version } => {
                text.append("unsupported OpusHead version ");
                append_decimal(&mut text, *version as u64);
            },
            OpusError::OggOpusUnsupportedChannelCount { channels } => {
                text.append("Ogg Opus channel count must be 1 or 2, got ");
                append_decimal(&mut text, *channels as u64);
            },
            OpusError::OggOpusUnsupportedMappingFamily { mapping_family } => {
                text.append("Ogg Opus mapping family must be 0, got ");
                append_decimal(&mut text, *mapping_family as u64);
            },
            OpusError::OggOpusMissingTags => {
                text.append("Ogg Opus asset is missing OpusTags packet");
            },
            OpusError::OggOpusMultipleLogicalStreams => {
                text.append("Ogg Opus asset contains multiple logical streams");
            },
            OpusError::OggOpusNoAudioPackets => {
                text.append("Ogg Opus asset contains no audio packets");
            },
            OpusError::OggOpusNoAudioAfterPreSkip => {
                text.append("Ogg Opus asset contains no audio after pre-skip");
            },
            OpusError::OggOpusDecodedEmpty => {
                text.append("Ogg Opus asset decoded to empty audio");
            },
            OpusError::OggOpusOutputSampleRateTooLarge { sample_rate_hz } => {
                text.append("Ogg Opus output sample rate ");
                append_decimal(&mut text, *sample_rate_hz as u64);
                text.append(" exceeds the decoder limit");
            },
        }
        assert(text@ =~= self.words());
        text
    }
}

impl BackpressureError {
    /// The error in words.
    pub open spec fn words(self) -> Seq<char>
    {
        match self {
            BackpressureError::CommandQueueFull => "voice connection command queue is full"@,
            BackpressureError::MediaQueueFull => "voice connection media queue is full"@,
            BackpressureError::ActiveOpusPlayout => {
                "voice connection already has an active Opus playout"@
            },
            BackpressureError::ActiveFrameStream => {
                "voice connection already has an active media frame stream"@
            },
        }
    }

    pub fn message(&self) -> (text: String)
        ensures
            text@ == self.words(),
    {
        let mut text = String::new();
        match self {
            BackpressureError::CommandQueueFull => {
                text.append("voice connection command queue is full");
            },
            BackpressureError::MediaQueueFull => {
                text.append("voice connection media queue is full");
            },
            BackpressureError::ActiveOpusPlayout => {
                text.append("voice connection already has an active Opus playout");
            },
            BackpressureError::ActiveFrameStream => {
                text.append("voice connection already has an active media frame stream");
            },
        }
        assert(text@ =~= self.words());
        text
    }
}

impl ConnectionJoinError {
    /// The error in words.
    pub open spec fn words(self) -> Seq<char>
    {
        match self {
            ConnectionJoinError::ControlTaskJoinFailed(reason) => "voice control task join failed: "@
                + reason@,
            ConnectionJoinError::JoinTaskClosed => "voice join task is closed"@,
            ConnectionJoinError::JoinTaskStoppedBeforeReply => {
                "voice join task stopped before replying"@
            },
        }
    }

    pub fn message(&self) -> (text: String)
        ensures
            text@ == self.words(),
    {
        let mut text = String::new();
        match self {
            ConnectionJoinError::ControlTaskJoinFailed(reason) => {
                text.append("voice control task join failed: ");
                text.append(reason.as_str());
            },
            ConnectionJoinError::JoinTaskClosed => {
                text.append("voice join task is closed");
            },
            ConnectionJoinError::JoinTaskStoppedBeforeReply => {
                text.append("voice join task stopped before replying");
            },
        }
        assert(text@ =~= self.words());
        text
    }
}

impl PayloadKind {
    /// The error in words.
    pub open spec fn words(self) -> Seq<char>
    {
        match self {
            PayloadKind::RawUdpPacket => "raw UDP packet"@,
            PayloadKind::RtpPacket => "RTP packet"@,
            PayloadKind::Frame => "voice frame"@,
        }
    }

    pub fn message(&self) -> (text: String)
        ensures
            text@ == self.words(),
    {
        let mut text = String::new();
        match self {
            PayloadKind::RawUdpPacket => {
                text.append("raw UDP packet");
            },
            PayloadKind::RtpPacket => {
                text.append("RTP packet");
            },
            PayloadKind::Frame => {
                text.append("voice frame");
            },
        }
        assert(text@ =~= self.words());
        text
    }
}

impl UnsupportedCodecError {
    /// The error in words.
    pub open spec fn words(self) -> Seq<char>
    {
        match self {
            UnsupportedCodecError::UnsupportedAudioCodec { codec } => "unsupported Discord voice audio codec "@
                + debug_text(codec@) + "; only Opus is supported"@,
            UnsupportedCodecError::UnsupportedVideoCodec { codec } => "unsupported Discord voice video codec "@
                + debug_text(codec@),
            UnsupportedCodecError::UnsupportedRtpPayloadType { payload_type, expected_payload_types } => "unsupported Discord voice RTP payload type "@
                + decimal(payload_type@ as nat) + "; expected one of "@
                + payload_type_list(expected_payload_types@),
            UnsupportedCodecError::UnexpectedRtpPayloadCodec { payload_type, codec, expected_payload_types } => "Discord voice RTP payload type "@
                + decimal(payload_type@ as nat) + " is "@ + codec.name()
                + "; negotiated payload types are "@ + payload_type_list(expected_payload_types@),
        }
    }

    pub fn message(&self) -> (text: String)
        ensures
            text@ == self.words(),
    {
        let mut text = String::new();
        match self {
            UnsupportedCodecError::UnsupportedAudioCodec { codec } => {
                text.append("unsupported Discord voice audio codec ");
                let shown = quoted_text(codec.as_str());
                text.append(shown.as_str());
                text.append("; only Opus is supported");
            },
            UnsupportedCodecError::UnsupportedVideoCodec { codec } => {
                text.append("unsupported Discord voice video codec ");
                let shown = quoted_text(codec.as_str());
                text.append(shown.as_str());
            },
            UnsupportedCodecError::UnsupportedRtpPayloadType { payload_type, expected_payload_types } => {
                text.append("unsupported Discord voice RTP payload type ");
                append_decimal(&mut text, payload_type.get() as u64);
                text.append("; expected one of ");
                append_payload_types(&mut text, expected_payload_types);
            },
            UnsupportedCodecError::UnexpectedRtpPayloadCodec { payload_type, codec, expected_payload_types } => {
                text.append("Discord voice RTP payload type ");
                append_decimal(&mut text, payload_type.get() as u64);
                text.append(" is ");
                text.append(codec.as_str());
                text.append("; negotiated payload types are ");
                append_payload_types(&mut text, expected_payload_types);
            },
        }
        assert(text@ =~= self.words());
        text
    }
}

impl RtpError {
    /// The error in words.
    pub open spec fn words(self) -> Seq<char>
    {
        match self {
            RtpError::PacketTooShort { len } => "voice RTP packet is shorter than 12 bytes: "@
                + decimal(len as nat),
            RtpError::UnsupportedVersion { version } => "unsupported voice RTP version "@
                + decimal(version as nat) + "; expected 2"@,
            RtpError::TruncatedCsrcList { len, expected_header_len } => "voice RTP packet has truncated CSRC list: "@
                + decimal(len as nat) + " bytes for "@ + decimal(expected_header_len as nat)
                + " byte header"@,
            RtpError::TruncatedExtensionHeader { len, expected_header_len } => "voice RTP packet has truncated extension header: "@
                + decimal(len as nat) + " bytes for "@ + decimal(expected_header_len as nat)
                + " byte header"@,
            RtpError::TruncatedExtensionPayload { len, expected_header_len } => "voice RTP packet has truncated extension payload: "@
                + decimal(len as nat) + " bytes for "@ + decimal(expected_header_len as nat)
                + " byte header"@,
            RtpError::TruncatedEncryptedExtension => {
                "voice RTP packet has truncated encrypted extension"@
            },
            RtpError::EmptyPaddedPayload => "voice RTP packet has empty padded payload"@,
            RtpError::InvalidPadding { padding, payload_len } => "voice RTP packet has invalid padding length "@
                + decimal(padding as nat) + " for payload length "@ + decimal(payload_len as nat),
            RtpError::PayloadTooLarge { codec, payload_len, max_payload_len } => codec.name()
                + " RTP payload is "@ + decimal(payload_len as nat)
                + " bytes, exceeding the per-packet media payload limit "@
                + decimal(max_payload_len as nat),
            RtpError::MalformedPayload { codec, reason } => "malformed "@
                + codec.name() + " RTP payload: "@ + reason@,
        }
    }

    pub fn message(&self) -> (text: String)
        ensures
            text@ == self.words(),
    {
        let mut text = String::new();
        match self {
            RtpError::PacketTooShort { len } => {
                text.append("voice RTP packet is shorter than 12 bytes: ");
                append_decimal(&mut text, *len as u64);
            },
            RtpError::UnsupportedVersion { version } => {
                text.append("unsupported voice RTP version ");
                append_decimal(&mut text, *version as u64);
                text.append("; expected 2");
            },
            RtpError::TruncatedCsrcList { len, expected_header_len } => {
                text.append("voice RTP packet has truncated CSRC list: ");
                append_decimal(&mut text, *len as u64);
                text.append(" bytes for ");
                append_decimal(&mut text, *expected_header_len as u64);
                text.append(" byte header");
            },
            RtpError::TruncatedExtensionHeader { len, expected_header_len } => {
                text.append("voice RTP packet has truncated extension header: ");
                append_decimal(&mut text, *len as u64);
                text.append(" bytes for ");
                append_decimal(&mut text, *expected_header_len as u64);
                text.append(" byte header");
            },
            RtpError::TruncatedExtensionPayload { len, expected_header_len } => {
                text.append("voice RTP packet has truncated extension payload: ");
                append_decimal(&mut text, *len as u64);
                text.append(" bytes for ");
                append_decimal(&mut text, *expected_header_len as u64);
                text.append(" byte header");
            },
            RtpError::TruncatedEncryptedExtension => {
                text.append("voice RTP packet has truncated encrypted extension");
            },
            RtpError::EmptyPaddedPayload => {
                text.append("voice RTP packet has empty padded payload");
            },
            RtpError::InvalidPadding { padding, payload_len } => {
                text.append("voice RTP packet has invalid padding length ");
                append_decimal(&mut text, *padding as u64);
                text.append(" for payload length ");
                append_decimal(&mut text, *payload_len as u64);
            },
            RtpError::PayloadTooLarge { codec, payload_len, max_payload_len } => {
                text.append(codec.as_str());
                text.append(" RTP payload is ");
                append_decimal(&mut text, *payload_len as u64);
                text.append(" bytes, exceeding the per-packet media payload limit ");
                append_decimal(&mut text, *max_payload_len as u64);
            },
            RtpError::MalformedPayload { codec, reason } => {
                text.append("malformed ");
                text.append(codec.as_str());
                text.append(" RTP payload: ");
                text.append(*reason);
            },
        }
        assert(text@ =~= self.words());
        text
    }
}

impl TransportCryptoError {
    /// The error in words.
    pub open spec fn words(self) -> Seq<char>
    {
        match self {
            TransportCryptoError::InvalidSecretKeyLen { len } => "voice secret_key must be 32 bytes, got "@
                + decimal(len as nat),
            TransportCryptoError::MissingRtpSizeNonce { packet_len, min_len } => "voice RTP packet is missing the RTP-size nonce suffix: "@
                + decimal(packet_len as nat) + " bytes for minimum "@ + decimal(min_len as nat),
            TransportCryptoError::NonceRandomnessUnavailable => {
                "failed to initialize voice nonce from OS randomness"@
            },
            TransportCryptoError::InvalidAesGcmKey => "invalid AES-GCM voice secret key"@,
            TransportCryptoError::InvalidXChaCha20Poly1305Key => {
                "invalid XChaCha20-Poly1305 voice secret key"@
            },
            TransportCryptoError::AesGcmDecryptFailed => "failed to decrypt AES-GCM voice packet"@,
            TransportCryptoError::AesGcmEncryptFailed => "failed to encrypt AES-GCM voice packet"@,
            TransportCryptoError::XChaCha20Poly1305DecryptFailed => {
                "failed to decrypt XChaCha20-Poly1305 voice packet"@
            },
            TransportCryptoError::XChaCha20Poly1305EncryptFailed => {
                "failed to encrypt XChaCha20-Poly1305 voice packet"@
            },
        }
    }

    pub fn message(&self) -> (text: String)
        ensures
            text@ == self.words(),
    {
        let mut text = String::new();
        match self {
            TransportCryptoError::InvalidSecretKeyLen { len } => {
                text.append("voice secret_key must be 32 bytes, got ");
                append_decimal(&mut text, *len as u64);
            },
            TransportCryptoError::MissingRtpSizeNonce { packet_len, min_len } => {
                text.append("voice RTP packet is missing the RTP-size nonce suffix: ");
                append_decimal(&mut text, *packet_len as u64);
                text.append(" bytes for minimum ");
                append_decimal(&mut text, *min_len as u64);
            },
            TransportCryptoError::NonceRandomnessUnavailable => {
                text.append("failed to initialize voice nonce from OS randomness");
            },
            TransportCryptoError::InvalidAesGcmKey => {
                text.append("invalid AES-GCM voice secret key");
            },
            TransportCryptoError::InvalidXChaCha20Poly1305Key => {
                text.append("invalid XChaCha20-Poly1305 voice secret key");
            },
            TransportCryptoError::AesGcmDecryptFailed => {
                text.append("failed to decrypt AES-GCM voice packet");
            },
            TransportCryptoError::AesGcmEncryptFailed => {
                text.append("failed to encrypt AES-GCM voice packet");
            },
            TransportCryptoError::XChaCha20Poly1305DecryptFailed => {
                text.append("failed to decrypt XChaCha20-Poly1305 voice packet");
            },
            TransportCryptoError::XChaCha20Poly1305EncryptFailed => {
                text.append("failed to encrypt XChaCha20-Poly1305 voice packet");
            },
        }
        assert(text@ =~= self.words());
        text
    }
}

impl TransportCryptoDirection {
    /// The error in words.
    pub open spec fn words(self) -> Seq<char>
    {
        match self {
            TransportCryptoDirection::Session => "session"@,
            TransportCryptoDirection::Send => "send"@,
            TransportCryptoDirection::Receive => "receive"@,
        }
    }

    pub fn message(&self) -> (text: String)
        ensures
            text@ == self.words(),
    {
        let mut text = String::new();
        match self {
            TransportCryptoDirection::Session => {
                text.append("session");
            },
            TransportCryptoDirection::Send => {
                text.append("send");
            },
            TransportCryptoDirection::Receive => {
                text.append("receive");
            },
        }
        assert(text@ =~= self.words());
        text
    }
}

impl DaveGatewayPayloadError {
    /// The error in words.
    pub open spec fn words(self) -> Seq<char>
    {
        match self {
            DaveGatewayPayloadError::PayloadTooShort { opcode, len, min_len } => "opcode "@
                + decimal(opcode as nat) + " payload is "@ + decimal(len as nat)
                + " bytes, expected at least "@ + decimal(min_len as nat),
        }
    }

    pub fn message(&self) -> (text: String)
        ensures
            text@ == self.words(),
    {
        let mut text = String::new();
        match self {
            DaveGatewayPayloadError::PayloadTooShort { opcode, len, min_len } => {
                text.append("opcode ");
                append_decimal(&mut text, *opcode as u64);
                text.append(" payload is ");
                append_decimal(&mut text, *len as u64);
                text.append(" bytes, expected at least ");
                append_decimal(&mut text, *min_len as u64);
            },
        }
        assert(text@ =~= self.words());
        text
    }
}

impl DaveProposalsPayloadError {
    /// The error in words.
    pub open spec fn words(self) -> Seq<char>
    {
        match self {
            DaveProposalsPayloadError::MissingOperation => "missing proposals operation byte"@,
            DaveProposalsPayloadError::InvalidOperation { operation } => "invalid proposals operation byte "@
                + decimal(operation as nat),
        }
    }

    pub fn message(&self) -> (text: String)
        ensures
            text@ == self.words(),
    {
        let mut text = String::new();
        match self {
            DaveProposalsPayloadError::MissingOperation => {
                text.append("missing proposals operation byte");
            },
            DaveProposalsPayloadError::InvalidOperation { operation } => {
                text.append("invalid proposals operation byte ");
                append_decimal(&mut text, *operation as u64);
            },
        }
        assert(text@ =~= self.words());
        text
    }
}

impl FrameDecryptError {
    /// The error in words.
    pub open spec fn words(self) -> Seq<char>
    {
        match self {
            FrameDecryptError::NoValidCryptor { media_type, encrypted_size, plaintext_capacity, manager_count } => "no valid cryptor for a frame of "@
                + media_type.name() + ": "@ + decimal(encrypted_size as nat)
                + " bytes, room for "@ + decimal(plaintext_capacity as nat) + ", "@
                + decimal(manager_count as nat) + " key managers"@,
            FrameDecryptError::PassthroughDisabled => {
                "the frame is not encrypted, and none is let through"@
            },
            FrameDecryptError::MalformedFrame => "the frame is malformed"@,
            FrameDecryptError::ReplayedNonce => "the nonce of the frame was used before"@,
            FrameDecryptError::MissingCryptor { generation } => "no cryptor for generation "@
                + decimal(generation as nat),
            FrameDecryptError::Aead { generation } => "the frame was not sealed with the key of generation "@
                + decimal(generation as nat),
            FrameDecryptError::InvalidKey => "the key is not valid"@,
        }
    }

    pub fn message(&self) -> (text: String)
        ensures
            text@ == self.words(),
    {
        let mut text = String::new();
        match self {
            FrameDecryptError::NoValidCryptor { media_type, encrypted_size, plaintext_capacity, manager_count } => {
                text.append("no valid cryptor for a frame of ");
                text.append(media_type.as_str());
                text.append(": ");
                append_decimal(&mut text, *encrypted_size as u64);
                text.append(" bytes, room for ");
                append_decimal(&mut text, *plaintext_capacity as u64);
                text.append(", ");
                append_decimal(&mut text, *manager_count as u64);
                text.append(" key managers");
            },
            FrameDecryptError::PassthroughDisabled => {
                text.append("the frame is not encrypted, and none is let through");
            },
            FrameDecryptError::MalformedFrame => {
                text.append("the frame is malformed");
            },
            FrameDecryptError::ReplayedNonce => {
                text.append("the nonce of the frame was used before");
            },
            FrameDecryptError::MissingCryptor { generation } => {
                text.append("no cryptor for generation ");
                append_decimal(&mut text, *generation as u64);
            },
            FrameDecryptError::Aead { generation } => {
                text.append("the frame was not sealed with the key of generation ");
                append_decimal(&mut text, *generation as u64);
            },
            FrameDecryptError::InvalidKey => {
                text.append("the key is not valid");
            },
        }
        assert(text@ =~= self.words());
        text
    }
}

impl DecryptError {
    /// The error in words.
    pub open spec fn words(self) -> Seq<char>
    {
        match self {
            DecryptError::NoDecryptorForUser { user_id } => "no decryptor for user "@
                + decimal(user_id as nat),
            DecryptError::Frame(error) => error.words(),
        }
    }

    pub fn message(&self) -> (text: String)
        ensures
            text@ == self.words(),
    {
        let mut text = String::new();
        match self {
            DecryptError::NoDecryptorForUser { user_id } => {
                text.append("no decryptor for user ");
                append_decimal(&mut text, *user_id as u64);
            },
            DecryptError::Frame(error) => {
                let inner = error.message();
                text.append(inner.as_str());
            },
        }
        assert(text@ =~= self.words());
        text
    }
}

impl DaveDecryptError {
    /// The error in words.
    pub open spec fn words(self) -> Seq<char>
    {
        match self {
            DaveDecryptError::MissingUser => "DAVE frame decrypt requires mapped user_id"@,
            DaveDecryptError::Source(error) => error.words(),
        }
    }

    pub fn message(&self) -> (text: String)
        ensures
            text@ == self.words(),
    {
        let mut text = String::new();
        match self {
            DaveDecryptError::MissingUser => {
                text.append("DAVE frame decrypt requires mapped user_id");
            },
            DaveDecryptError::Source(error) => {
                let inner = error.message();
                text.append(inner.as_str());
            },
        }
        assert(text@ =~= self.words());
        text
    }
}

impl DaveError {
    /// The error in words.
    pub open spec fn words(self) -> Seq<char>
        decreases self,
    {
        match self {
            DaveError::InvalidProtocolVersion { version } => "unsupported DAVE protocol version "@
                + decimal(version as nat),
            DaveError::CreateSession(reason) => "failed to create DAVE session: "@ + reason@,
            DaveError::SetExternalSender(reason) => "failed to set DAVE external sender: "@
                + reason@,
            DaveError::CreateKeyPackage(reason) => "failed to create DAVE key package: "@ + reason@,
            DaveError::ProcessProposals(reason) => "failed to process DAVE proposals: "@ + reason@,
            DaveError::ProcessWelcome(reason) => "failed to process DAVE welcome: "@ + reason@,
            DaveError::ProcessCommit(reason) => "failed to process DAVE commit: "@ + reason@,
            DaveError::UpdateRatchets(reason) => "failed to update DAVE media ratchets: "@
                + reason@,
            DaveError::RecoverInvalidGroup { operation, original, recovery } => "failed to recover invalid DAVE group after "@
                + operation@ + " error ("@ + original.words() + "): "@ + recovery.words(),
            DaveError::InvalidGatewayPayload(error) => "invalid DAVE gateway payload: "@
                + error.words(),
            DaveError::InvalidProposalsPayload(error) => "invalid DAVE proposals payload: "@
                + error.words(),
            DaveError::Encrypt(reason) => reason@,
            DaveError::Decrypt(error) => error.words(),
        }
    }

    pub fn message(&self) -> (text: String)
        ensures
            text@ == self.words(),
        decreases self,
    {
        let mut text = String::new();
        match self {
            DaveError::InvalidProtocolVersion { version } => {
                text.append("unsupported DAVE protocol version ");
                append_decimal(&mut text, *version as u64);
            },
            DaveError::CreateSession(reason) => {
                text.append("failed to create DAVE session: ");
                text.append(reason.as_str());
            },
            DaveError::SetExternalSender(reason) => {
                text.append("failed to set DAVE external sender: ");
                text.append(reason.as_str());
            },
            DaveError::CreateKeyPackage(reason) => {
                text.append("failed to create DAVE key package: ");
                text.append(reason.as_str());
            },
            DaveError::ProcessProposals(reason) => {
                text.append("failed to process DAVE proposals: ");
                text.append(reason.as_str());
            },
            DaveError::ProcessWelcome(reason) => {
                text.append("failed to process DAVE welcome: ");
                text.append(reason.as_str());
            },
            DaveError::ProcessCommit(reason) => {
                text.append("failed to process DAVE commit: ");
                text.append(reason.as_str());
            },
            DaveError::UpdateRatchets(reason) => {
                text.append("failed to update DAVE media ratchets: ");
                text.append(reason.as_str());
            },
            DaveError::RecoverInvalidGroup { operation, original, recovery } => {
                text.append("failed to recover invalid DAVE group after ");
                text.append(*operation);
                text.append(" error (");
                let inner = original.message();
                text.append(inner.as_str());
                text.append("): ");
                let inner = recovery.message();
                text.append(inner.as_str());
            },
            DaveError::InvalidGatewayPayload(error) => {
                text.append("invalid DAVE gateway payload: ");
                let inner = error.message();
                text.append(inner.as_str());
            },
            DaveError::InvalidProposalsPayload(error) => {
                text.append("invalid DAVE proposals payload: ");
                let inner = error.message();
                text.append(inner.as_str());
            },
            DaveError::Encrypt(reason) => {
                text.append(reason.as_str());
            },
            DaveError::Decrypt(error) => {
                let inner = error.message();
                text.append(inner.as_str());
            },
        }
        assert(text@ =~= self.words());
        text
    }
}

impl Error {
    /// The error in words.
    pub open spec fn words(self) -> Seq<char>
        decreases self,
    {
        match self {
            Error::InvalidInput(error) => error.words(),
            Error::Pcm(error) => error.words(),
            Error::Protocol(error) => error.words(),
            Error::Timeout { stage: Some(stage), duration } => "voice "@
                + stage.name() + " timed out after "@ + shown_span(duration),
            Error::Timeout { stage: None, duration } => "voice operation timed out after "@
                + shown_span(duration),
            Error::Io(reason) => reason@,
            Error::Json(reason) => reason@,
            Error::WebSocket(reason) => reason@,
            Error::Opus(error) => error.words(),
            Error::UnsupportedCodec(error) => error.words(),
            Error::Dave(error) => error.words(),
            Error::Rtp(error) => error.words(),
            Error::TransportCrypto(error) => error.words(),
            Error::PayloadTooLarge { kind, len, max_len } => "voice "@
                + kind.words() + " is "@ + decimal(len as nat)
                + " bytes, exceeding requested max_len "@ + decimal(max_len as nat),
            Error::Backpressure(error) => error.words(),
            Error::Closed => "voice connection is closed"@,
            Error::Join(error) => error.words(),
        }
    }

    pub fn message(&self) -> (text: String)
        ensures
            text@ == self.words(),
        decreases self,
    {
        let mut text = String::new();
        match self {
            Error::InvalidInput(error) => {
                let inner = error.message();
                text.append(inner.as_str());
            },
            Error::Pcm(error) => {
                let inner = error.message();
                text.append(inner.as_str());
            },
            Error::Protocol(error) => {
                let inner = error.message();
                text.append(inner.as_str());
            },
            Error::Timeout { stage: Some(stage), duration } => {
                text.append("voice ");
                text.append(stage.label());
                text.append(" timed out after ");
                let shown = span_text(duration.as_secs(), duration.subsec_nanos());
                text.append(shown.as_str());
            },
            Error::Timeout { stage: None, duration } => {
                text.append("voice operation timed out after ");
                let shown = span_text(duration.as_secs(), duration.subsec_nanos());
                text.append(shown.as_str());
            },
            Error::Io(reason) => {
                text.append(reason.as_str());
            },
            Error::Json(reason) => {
                text.append(reason.as_str());
            },
            Error::WebSocket(reason) => {
                text.append(reason.as_str());
            },
            Error::Opus(error) => {
                let inner = error.message();
                text.append(inner.as_str());
            },
            Error::UnsupportedCodec(error) => {
                let inner = error.message();
                text.append(inner.as_str());
            },
            Error::Dave(error) => {
                let inner = error.message();
                text.append(inner.as_str());
            },
            Error::Rtp(error) => {
                let inner = error.message();
                text.append(inner.as_str());
            },
            Error::TransportCrypto(error) => {
                let inner = error.message();
                text.append(inner.as_str());
            },
            Error::PayloadTooLarge { kind, len, max_len } => {
                text.append("voice ");
                let inner = kind.message();
                text.append(inner.as_str());
                text.append(" is ");
                append_decimal(&mut text, *len as u64);
                text.append(" bytes, exceeding requested max_len ");
                append_decimal(&mut text, *max_len as u64);
            },
            Error::Backpressure(error) => {
                let inner = error.message();
                text.append(inner.as_str());
            },
            Error::Closed => {
                text.append("voice connection is closed");
            },
            Error::Join(error) => {
                let inner = error.message();
                text.append(inner.as_str());
            },
        }
        assert(text@ =~= self.words());
        text
    }
}

} // verus!
