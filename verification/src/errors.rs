//! Everything that can go wrong, by the part that found it.

pub mod words;

use crate::codec::Codec;
use crate::observer::{ConnectStage, ReceiveDecodeErrorKind};
use crate::rtp::RtpPayloadType;
use crate::state::{EncryptionMode, OfferedEncryptionMode};
use crate::time::Duration;
use vstd::prelude::*;

verus! {

#[derive(Debug)]
pub enum Error {
    InvalidInput(InvalidInputError),
    Pcm(PcmError),
    Protocol(ProtocolError),
    Timeout { stage: Option<ConnectStage>, duration: Duration },
    /// What reading or writing failed with, in its words.
    Io(String),
    /// What is wrong with a JSON text, in words.
    Json(String),
    /// What is wrong with a WebSocket or its URL, in words.
    WebSocket(String),
    Opus(OpusError),
    UnsupportedCodec(UnsupportedCodecError),
    Dave(DaveError),
    Rtp(RtpError),
    TransportCrypto(TransportCryptoError),
    PayloadTooLarge { kind: PayloadKind, len: usize, max_len: usize },
    Backpressure(BackpressureError),
    Closed,
    Join(ConnectionJoinError),
}

#[derive(Clone, Debug, PartialEq, Eq)]
pub enum PcmError {
    SampleRateZero,
    ChannelCountZero,
    SampleAlignment { encoding: &'static str, byte_len: usize, sample_bytes: usize },
    ChannelAlignment { channels: usize, samples: usize },
    UnsupportedEncoding(String),
    ResamplerChunkFramesZero,
    ResamplerNotInitialized,
    Resampler(String),
}

#[derive(Debug)]
pub enum InvalidInputError {
    ConnectionTuningZero { field: &'static str },
    ConnectionTuningTooSmall { field: &'static str, min: usize, actual: usize },
    ConnectionTuningDurationZero { field: &'static str },
    UnsupportedGatewayVersion { version: u8 },
    VideoCodecPreferenceNotVideo { codec: Codec },
    DuplicateVideoCodecPreference { codec: Codec },
    ZeroMaxLen,
    EmptyPayload { codec: Codec },
    PcmBlockSampleCount { expected: usize, actual: usize },
    PcmBlockFrameCount { expected: usize, actual: usize },
    PcmArchiveEmpty,
    OggOpusVendorEmpty,
    OggOpusUnsupportedSampleRate { sample_rate_hz: u32 },
    DiscordPcmMixedSampleRates { existing: u32, actual: u32 },
    DiscordPcmMixedChannelCounts { existing: usize, actual: usize },
    DiscordPcmMixedEncoding,
    DiscordPcmEncoderUninitialized,
    OpusBitrateTooLarge { bitrate_bps: u32 },
    OpusOutputBufferTooSmall { min_len: usize, len: usize },
}

#[derive(Debug)]
pub enum ProtocolError {
    TextPayloadRequiresBinaryDaveMlsCommand,
    UdpDiscoveryPacketTooShort { len: usize, min_len: usize },
    UnexpectedUdpDiscoveryPacketType { packet_type: u16, expected_packet_type: u16 },
    UnexpectedUdpDiscoveryPacketLen { packet_len: u16, expected_packet_len: u16 },
    /// The address is UTF-8 up to there, and no further: so many bytes there are not, or the
    /// end came too early.
    InvalidUdpDiscoveryIp { valid_up_to: usize, error_len: Option<usize> },
    ReadyMissingEncryptionModes,
    RequiredEncryptionModeUnavailable {
        required_mode: EncryptionMode,
        modes: Vec<OfferedEncryptionMode>,
    },
    ReadyMissingSupportedEncryptionMode { modes: Vec<OfferedEncryptionMode> },
    ResolveWebSocketEndpoint { host: String, port: u16, source: String },
    WebSocketEndpointNoAddresses { host: String, port: u16 },
    WebSocketAddressConnectTimeout { address: String, duration: Duration },
    WebSocketAllAddressesFailed {
        host: String,
        port: u16,
        address_count: usize,
        errors: Vec<String>,
    },
    TcpConnect { address: String, source: String },
    WebSocketUrlMissingHost,
    WebSocketUrlMissingUsableScheme,
    InvalidDiscordVoiceUdpIp { remote_ip: String, source: String },
    HeartbeatAckTimeout,
    MissingSessionDescription,
    MediaCodecNotNegotiated { codec: Codec, negotiated_codec: Option<Codec> },
    MissingVideoSsrc { codec: Codec },
}

#[derive(Clone, Copy, Debug, PartialEq, Eq, Structural)]
pub enum OpusOperation {
    CreateEncoder,
    EncodeFrame,
    CreateMonoDecoder,
    CreateDecoder,
    DecodeFrame,
}

#[derive(Clone, Debug, PartialEq, Eq)]
pub enum OpusError {
    OperationFailed { operation: OpusOperation, reason: &'static str },
    UnsupportedVoiceCodec { codec: Codec },
    UnsupportedChannelCount { channels: usize },
    InvalidPacket { reason: &'static str },
    UnsupportedDiscordPacketDuration {
        expected_samples_per_channel: usize,
        actual_samples_per_channel: usize,
    },
    ResamplerNotInitialized,
    Resampler(String),
    EmptyFrame,
    OggOpusEmpty,
    OggOpusRead(String),
    OggOpusNoPackets,
    OggOpusHeaderNotStart,
    OggOpusMissingHead,
    OggOpusUnsupportedVersion { version: u8 },
    OggOpusUnsupportedChannelCount { channels: u8 },
    OggOpusUnsupportedMappingFamily { mapping_family: u8 },
    OggOpusMissingTags,
    OggOpusMultipleLogicalStreams,
    OggOpusNoAudioPackets,
    OggOpusNoAudioAfterPreSkip,
    OggOpusDecodedEmpty,
    OggOpusOutputSampleRateTooLarge { sample_rate_hz: u32 },
}

#[derive(Clone, Copy, Debug, PartialEq, Eq, Structural)]
pub enum BackpressureError {
    CommandQueueFull,
    MediaQueueFull,
    ActiveOpusPlayout,
    ActiveFrameStream,
}

#[derive(Clone, Debug, PartialEq, Eq)]
pub enum ConnectionJoinError {
    /// The words of the task that could not be joined.
    ControlTaskJoinFailed(String),
    JoinTaskClosed,
    JoinTaskStoppedBeforeReply,
}

#[derive(Clone, Copy, Debug, PartialEq, Eq, Structural)]
pub enum PayloadKind {
    RawUdpPacket,
    RtpPacket,
    Frame,
}

#[derive(Clone, Debug, PartialEq, Eq)]
pub enum UnsupportedCodecError {
    UnsupportedAudioCodec { codec: String },
    UnsupportedVideoCodec { codec: String },
    UnsupportedRtpPayloadType {
        payload_type: RtpPayloadType,
        expected_payload_types: Vec<RtpPayloadType>,
    },
    UnexpectedRtpPayloadCodec {
        payload_type: RtpPayloadType,
        codec: Codec,
        expected_payload_types: Vec<RtpPayloadType>,
    },
}

#[derive(Clone, Debug, PartialEq, Eq)]
pub enum RtpError {
    PacketTooShort { len: usize },
    UnsupportedVersion { version: u8 },
    TruncatedCsrcList { len: usize, expected_header_len: usize },
    TruncatedExtensionHeader { len: usize, expected_header_len: usize },
    TruncatedExtensionPayload { len: usize, expected_header_len: usize },
    TruncatedEncryptedExtension,
    EmptyPaddedPayload,
    InvalidPadding { padding: usize, payload_len: usize },
    PayloadTooLarge { codec: Codec, payload_len: usize, max_payload_len: usize },
    MalformedPayload { codec: Codec, reason: &'static str },
}

#[derive(Clone, Debug, PartialEq, Eq)]
pub enum TransportCryptoError {
    InvalidSecretKeyLen { len: usize },
    MissingRtpSizeNonce { packet_len: usize, min_len: usize },
    NonceRandomnessUnavailable,
    InvalidAesGcmKey,
    InvalidXChaCha20Poly1305Key,
    AesGcmDecryptFailed,
    AesGcmEncryptFailed,
    XChaCha20Poly1305DecryptFailed,
    XChaCha20Poly1305EncryptFailed,
}

#[derive(Clone, Copy, Debug, PartialEq, Eq, Structural)]
pub enum TransportCryptoDirection {
    Session,
    Send,
    Receive,
}

/// What can go wrong in the end-to-end encryption session. The text of a variant
/// is what the session said.
#[derive(Debug)]
pub enum DaveError {
    InvalidProtocolVersion { version: u16 },
    CreateSession(String),
    SetExternalSender(String),
    CreateKeyPackage(String),
    ProcessProposals(String),
    ProcessWelcome(String),
    ProcessCommit(String),
    UpdateRatchets(String),
    RecoverInvalidGroup { operation: &'static str, original: Box<DaveError>, recovery: Box<Error> },
    InvalidGatewayPayload(DaveGatewayPayloadError),
    InvalidProposalsPayload(DaveProposalsPayloadError),
    Encrypt(String),
    Decrypt(DaveDecryptError),
}

#[derive(Clone, Debug, PartialEq, Eq)]
pub enum DaveGatewayPayloadError {
    PayloadTooShort { opcode: u8, len: usize, min_len: usize },
}

#[derive(Clone, Debug, PartialEq, Eq)]
pub enum DaveProposalsPayloadError {
    MissingOperation,
    InvalidOperation { operation: u8 },
}

#[derive(Clone, Debug, PartialEq, Eq)]
pub enum DaveDecryptError {
    MissingUser,
    Source(DecryptError),
}

/// Why a session could not decrypt a frame.
#[derive(Clone, Debug, PartialEq, Eq)]
pub enum DecryptError {
    NoDecryptorForUser { user_id: u64 },
    Frame(FrameDecryptError),
}

/// Why a frame could not be decrypted.
#[derive(Clone, Debug, PartialEq, Eq)]
pub enum FrameDecryptError {
    NoValidCryptor {
        media_type: crate::codec::MediaType,
        encrypted_size: usize,
        plaintext_capacity: usize,
        manager_count: usize,
    },
    PassthroughDisabled,
    MalformedFrame,
    ReplayedNonce,
    MissingCryptor { generation: u32 },
    Aead { generation: u32 },
    InvalidKey,
}

impl Error {
    /// How an error met on the receive path is reported, if it is one.
    pub open spec fn decode_kind(self) -> Option<ReceiveDecodeErrorKind> {
        match self {
            Error::Rtp(_) => Some(ReceiveDecodeErrorKind::MalformedRtp),
            Error::UnsupportedCodec(_) => Some(ReceiveDecodeErrorKind::UnsupportedCodec),
            Error::TransportCrypto(_) => Some(ReceiveDecodeErrorKind::TransportDecryptFailed),
            Error::Dave(DaveError::Decrypt(error)) => Some(error.decode_kind()),
            Error::Opus(_) => Some(ReceiveDecodeErrorKind::OpusDecodeFailed),
            _ => None,
        }
    }

    pub fn receive_decode_kind(&self) -> (kind: Option<ReceiveDecodeErrorKind>)
        ensures
            kind == self.decode_kind(),
    {
        match self {
            Error::Rtp(_) => Some(ReceiveDecodeErrorKind::MalformedRtp),
            Error::UnsupportedCodec(_) => Some(ReceiveDecodeErrorKind::UnsupportedCodec),
            Error::TransportCrypto(_) => Some(ReceiveDecodeErrorKind::TransportDecryptFailed),
            Error::Dave(error) => match error {
                DaveError::Decrypt(error) => Some(error.receive_decode_kind()),
                _ => None,
            },
            Error::Opus(_) => Some(ReceiveDecodeErrorKind::OpusDecodeFailed),
            _ => None,
        }
    }
}

impl DaveError {
    /// The error of a group that could not be recovered: both errors where the
    /// recovery failed in the session too, otherwise the recovery's own.
    pub fn recover_invalid_group(
        operation: &'static str,
        original: DaveError,
        recovery: Error,
    ) -> (error: Error)
        ensures
            error == (if recovery is Dave {
                Error::Dave(
                    DaveError::RecoverInvalidGroup {
                        operation,
                        original: Box::new(original),
                        recovery: Box::new(recovery),
                    },
                )
            } else {
                recovery
            }),
    {
        match recovery {
            Error::Dave(inner) => Error::Dave(
                DaveError::RecoverInvalidGroup {
                    operation,
                    original: Box::new(original),
                    recovery: Box::new(Error::Dave(inner)),
                },
            ),
            other => other,
        }
    }
}

impl DaveDecryptError {
    pub open spec fn decode_kind(self) -> ReceiveDecodeErrorKind {
        match self {
            DaveDecryptError::MissingUser => ReceiveDecodeErrorKind::MissingDaveUser,
            DaveDecryptError::Source(
                DecryptError::NoDecryptorForUser { .. },
            ) => ReceiveDecodeErrorKind::DaveNoDecryptorForUser,
            DaveDecryptError::Source(
                DecryptError::Frame(FrameDecryptError::NoValidCryptor { .. }),
            ) => ReceiveDecodeErrorKind::DaveNoValidCryptor,
            DaveDecryptError::Source(
                DecryptError::Frame(FrameDecryptError::PassthroughDisabled),
            ) => ReceiveDecodeErrorKind::DaveUnencryptedWhenPassthroughDisabled,
            DaveDecryptError::Source(
                DecryptError::Frame(_),
            ) => ReceiveDecodeErrorKind::DaveOtherDecryptError,
        }
    }

    pub fn receive_decode_kind(&self) -> (kind: ReceiveDecodeErrorKind)
        ensures
            kind == self.decode_kind(),
    {
        match self {
            DaveDecryptError::MissingUser => ReceiveDecodeErrorKind::MissingDaveUser,
            DaveDecryptError::Source(source) => match source {
                DecryptError::NoDecryptorForUser { .. } => {
                    ReceiveDecodeErrorKind::DaveNoDecryptorForUser
                },
                DecryptError::Frame(frame) => match frame {
                    FrameDecryptError::NoValidCryptor { .. } => {
                        ReceiveDecodeErrorKind::DaveNoValidCryptor
                    },
                    FrameDecryptError::PassthroughDisabled => {
                        ReceiveDecodeErrorKind::DaveUnencryptedWhenPassthroughDisabled
                    },
                    FrameDecryptError::MalformedFrame
                    | FrameDecryptError::ReplayedNonce
                    | FrameDecryptError::MissingCryptor { .. }
                    | FrameDecryptError::Aead { .. }
                    | FrameDecryptError::InvalidKey => {
                        ReceiveDecodeErrorKind::DaveOtherDecryptError
                    },
                },
            },
        }
    }

    pub open spec fn no_valid_cryptor(self) -> bool {
        self matches DaveDecryptError::Source(
            DecryptError::Frame(FrameDecryptError::NoValidCryptor { .. }),
        )
    }

    pub fn is_no_valid_cryptor(&self) -> (answer: bool)
        ensures
            answer == self.no_valid_cryptor(),
    {
        match self {
            DaveDecryptError::Source(
                DecryptError::Frame(FrameDecryptError::NoValidCryptor { .. }),
            ) => true,
            _ => false,
        }
    }

    /// The session's error, as the receive path carries it.
    pub fn from_source(error: DecryptError) -> (wrapped: Self)
        ensures
            wrapped == DaveDecryptError::Source(error),
    {
        DaveDecryptError::Source(error)
    }
}

} // verus!
