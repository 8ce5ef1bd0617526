//! What the connection tells its observer.

use crate::errors::Error;
use crate::time::Duration;
use vstd::prelude::*;

verus! {

/// An observer that listens to nothing.
#[derive(Clone, Copy, Debug, Default)]
pub struct NoopConnectionObserver;

#[derive(Clone, Copy, Debug, PartialEq, Eq)]
pub struct ConnectionEvent<'a> {
    pub endpoint: &'a str,
    pub guild_id: u64,
    pub user_id: u64,
}

#[derive(Clone, Copy, Debug, PartialEq, Eq, Structural)]
pub enum WebSocketFrameKind {
    Text,
    Binary,
}

/// Something failed, in these words.
#[derive(Clone, Copy, Debug, PartialEq, Eq)]
pub struct ConnectionErrorEvent<'a> {
    pub endpoint: &'a str,
    pub guild_id: u64,
    pub user_id: u64,
    pub error: &'a str,
}

/// A command was not sent, in these words.
#[derive(Clone, Copy, Debug, PartialEq, Eq)]
pub struct WebSocketCommandFailedEvent<'a> {
    pub endpoint: &'a str,
    pub guild_id: u64,
    pub user_id: u64,
    pub opcode: u64,
    pub frame_kind: WebSocketFrameKind,
    pub error: &'a str,
}

#[derive(Clone, Copy, Debug, PartialEq, Eq)]
pub struct WebSocketTextEvent<'a> {
    pub endpoint: &'a str,
    pub guild_id: u64,
    pub user_id: u64,
    pub opcode: u64,
    pub seq: Option<i64>,
}

#[derive(Clone, Copy, Debug, PartialEq, Eq)]
pub struct WebSocketBinaryEvent<'a> {
    pub endpoint: &'a str,
    pub guild_id: u64,
    pub user_id: u64,
    pub bytes: usize,
    pub first_byte: Option<u8>,
}

#[derive(Clone, Debug, PartialEq, Eq)]
pub struct WebSocketClosedEvent<'a> {
    pub endpoint: &'a str,
    pub guild_id: u64,
    pub user_id: u64,
    pub frame: Option<WebSocketCloseFrame>,
}

#[derive(Clone, Debug, PartialEq, Eq)]
pub struct WebSocketCloseFrame {
    pub code: String,
    pub reason: String,
    pub discord_call_terminated: bool,
}

/// The close code by which Discord ends a call.
pub const CALL_TERMINATED_CLOSE_CODE: u16 = 4022;

impl WebSocketCloseFrame {
    /// A close frame, from its code as a number and as it is shown.
    pub fn from_frame(code: u16, shown_code: String, reason: String) -> (frame: Self)
        ensures
            frame.code == shown_code,
            frame.reason == reason,
            frame.discord_call_terminated == (code == 4022),
    {
        WebSocketCloseFrame {
            code: shown_code,
            reason,
            discord_call_terminated: code == CALL_TERMINATED_CLOSE_CODE,
        }
    }
}

#[derive(Clone, Copy, Debug, PartialEq, Eq)]
pub struct ClientsConnectedEvent<'a> {
    pub endpoint: &'a str,
    pub guild_id: u64,
    pub user_id: u64,
    pub user_count: usize,
}

/// The stages of connecting, in their order.
#[derive(Clone, Copy, Debug, PartialEq, Eq, Structural)]
pub enum ConnectStage {
    WebSocketConnect,
    Hello,
    Ready,
    UdpDiscovery,
    SessionDescription,
}

impl ConnectStage {
    pub open spec fn name(self) -> Seq<char> {
        match self {
            ConnectStage::WebSocketConnect => "websocket connect"@,
            ConnectStage::Hello => "hello"@,
            ConnectStage::Ready => "ready"@,
            ConnectStage::UdpDiscovery => "UDP discovery"@,
            ConnectStage::SessionDescription => "session description"@,
        }
    }

    pub fn label(self) -> (text: &'static str)
        ensures
            text@ == self.name(),
    {
        match self {
            ConnectStage::WebSocketConnect => "websocket connect",
            ConnectStage::Hello => "hello",
            ConnectStage::Ready => "ready",
            ConnectStage::UdpDiscovery => "UDP discovery",
            ConnectStage::SessionDescription => "session description",
        }
    }
}

#[derive(Clone, Copy, Debug, PartialEq, Eq)]
pub struct ConnectStageCompletedEvent<'a> {
    pub endpoint: &'a str,
    pub guild_id: u64,
    pub user_id: u64,
    pub stage: ConnectStage,
    pub elapsed: Duration,
}

#[derive(Clone, Copy, Debug)]
pub struct ConnectStageFailedEvent<'a> {
    pub endpoint: &'a str,
    pub guild_id: u64,
    pub user_id: u64,
    pub stage: ConnectStage,
    pub elapsed: Duration,
    pub error: &'a Error,
}

#[derive(Clone, Copy, Debug, PartialEq, Eq)]
pub struct UdpPacketReceivedEvent<'a> {
    pub endpoint: &'a str,
    pub guild_id: u64,
    pub user_id: u64,
    pub bytes: usize,
    pub elapsed: Duration,
}

#[derive(Clone, Copy, Debug, PartialEq, Eq)]
pub struct UdpPacketSentEvent<'a> {
    pub endpoint: &'a str,
    pub guild_id: u64,
    pub user_id: u64,
    pub dave: bool,
    pub payload_bytes: usize,
    pub packet_bytes: usize,
    pub build_elapsed: Duration,
    pub send_elapsed: Duration,
}

#[derive(Clone, Copy, Debug, PartialEq, Eq, Structural)]
pub struct RtcpHeader {
    pub version: u8,
    pub padding: bool,
    pub report_count: u8,
    pub packet_type: u8,
    pub length_words: u16,
    pub ssrc: Option<u32>,
}

#[derive(Clone, Copy, Debug, PartialEq, Eq)]
pub struct RtcpPacketEvent<'a> {
    pub endpoint: &'a str,
    pub guild_id: u64,
    pub user_id: u64,
    pub bytes: &'a [u8],
    pub header: Option<RtcpHeader>,
}

#[derive(Clone, Copy, Debug, PartialEq, Eq, Structural)]
pub struct ReceiveRtpPacketEvent {
    pub ssrc: u32,
    pub user_id: Option<u64>,
    pub seq: u16,
    pub timestamp: u32,
    pub payload_bytes: usize,
    pub interarrival_us: Option<u64>,
    pub interarrival_p95_us: Option<u64>,
    pub interarrival_max_us: Option<u64>,
}

#[derive(Clone, Copy, Debug, PartialEq, Eq, Structural)]
pub struct ReceiveRtpPacketLossEvent {
    pub ssrc: u32,
    pub user_id: Option<u64>,
    pub first_seq: u16,
    pub last_seq: u16,
    pub missing_packets: u16,
    pub age_ms: u64,
}

/// What is reported of received packets.
#[derive(Clone, Copy, Debug, PartialEq, Eq, Structural)]
pub enum ReceiveRtpEvent {
    Packet(ReceiveRtpPacketEvent),
    Loss(ReceiveRtpPacketLossEvent),
}

#[derive(Clone, Copy, Debug, PartialEq, Eq, Structural)]
pub enum ReceiveDecodeStage {
    Rtp,
    Codec,
    Transport,
    DaveFrame,
    DaveDecrypt,
    Opus,
}

#[derive(Clone, Copy, Debug, PartialEq, Eq, Structural)]
pub enum ReceiveDecodeErrorKind {
    MalformedRtp,
    UnsupportedCodec,
    TransportDecryptFailed,
    MalformedDaveFrame,
    MissingDaveUser,
    DaveSessionNotReady,
    DaveGatewayPending,
    DaveNoDecryptorForUser,
    DaveNoValidCryptor,
    DaveUnencryptedWhenPassthroughDisabled,
    DaveOtherDecryptError,
    OpusDecodeFailed,
}

impl ReceiveDecodeErrorKind {
    /// The failures that a change of the session's state can cure.
    pub open spec fn curable(self) -> bool {
        self == ReceiveDecodeErrorKind::DaveNoDecryptorForUser || self
            == ReceiveDecodeErrorKind::DaveNoValidCryptor || self
            == ReceiveDecodeErrorKind::DaveOtherDecryptError
    }

    pub fn dave_decrypt_failure_can_become_recoverable(self) -> (answer: bool)
        ensures
            answer == self.curable(),
    {
        match self {
            ReceiveDecodeErrorKind::DaveNoDecryptorForUser
            | ReceiveDecodeErrorKind::DaveNoValidCryptor
            | ReceiveDecodeErrorKind::DaveOtherDecryptError => true,
            _ => false,
        }
    }

    /// A frame is kept for another try only while the session can still change.
    pub fn should_retry_dave_decrypt(self, state_can_still_change: bool) -> (answer: bool)
        ensures
            answer == (self.curable() && state_can_still_change),
    {
        self.dave_decrypt_failure_can_become_recoverable() && state_can_still_change
    }
}

/// Where on the receive path an error was met.
#[derive(Clone, Copy, Debug, PartialEq, Eq, Structural)]
pub struct ReceiveDecodeContext {
    pub ssrc: Option<u32>,
    pub user_id: Option<u64>,
    pub seq: Option<u16>,
}

/// `detail` is the error in words.
#[derive(Clone, Debug, PartialEq, Eq)]
pub struct ReceiveDecodeErrorEvent {
    pub stage: ReceiveDecodeStage,
    pub kind: ReceiveDecodeErrorKind,
    pub ssrc: Option<u32>,
    pub user_id: Option<u64>,
    pub seq: Option<u16>,
    pub detail: String,
}

/// The same as a mathematical value.
pub struct DecodeErrorView {
    pub stage: ReceiveDecodeStage,
    pub kind: ReceiveDecodeErrorKind,
    pub ssrc: Option<u32>,
    pub user_id: Option<u64>,
    pub seq: Option<u16>,
    pub detail: Seq<char>,
}

impl View for ReceiveDecodeErrorEvent {
    type V = DecodeErrorView;

    open spec fn view(&self) -> DecodeErrorView {
        DecodeErrorView {
            stage: self.stage,
            kind: self.kind,
            ssrc: self.ssrc,
            user_id: self.user_id,
            seq: self.seq,
            detail: self.detail@,
        }
    }
}

/// The report of an error on the receive path.
pub open spec fn decode_report(
    stage: ReceiveDecodeStage,
    kind: ReceiveDecodeErrorKind,
    context: ReceiveDecodeContext,
    error: Error,
) -> DecodeErrorView {
    DecodeErrorView {
        stage,
        kind,
        ssrc: context.ssrc,
        user_id: context.user_id,
        seq: context.seq,
        detail: error.words(),
    }
}

pub fn receive_decode_error(
    stage: ReceiveDecodeStage,
    kind: ReceiveDecodeErrorKind,
    context: ReceiveDecodeContext,
    error: &Error,
) -> (event: ReceiveDecodeErrorEvent)
    ensures
        event@ == decode_report(stage, kind, context, *error),
{
    ReceiveDecodeErrorEvent {
        stage,
        kind,
        ssrc: context.ssrc,
        user_id: context.user_id,
        seq: context.seq,
        detail: error.message(),
    }
}

#[derive(Clone, Copy, Debug, PartialEq, Eq, Structural)]
pub enum ReceiveFrameDropReason {
    ReadyQueueOverflow,
}

#[derive(Clone, Copy, Debug, PartialEq, Eq, Structural)]
pub struct ReceiveFrameDroppedEvent {
    pub reason: ReceiveFrameDropReason,
    pub ssrc: Option<u32>,
    pub user_id: Option<u64>,
    pub seq: Option<u16>,
    pub queued_frames: usize,
    pub dropped_error: bool,
}

#[derive(Clone, Copy, Debug, PartialEq, Eq, Structural)]
pub enum DavePendingMediaReason {
    MissingUser,
    SessionNotReady,
    GatewayPending,
    DecryptStatePending,
    NoValidCryptorPending,
    StableDecryptFailure,
    Expired,
}

#[derive(Clone, Copy, Debug, PartialEq, Eq, Structural)]
pub struct DavePendingMediaEvent {
    pub reason: DavePendingMediaReason,
    pub ssrc: u32,
    pub user_id: Option<u64>,
    pub seq: u16,
    pub pending_packets: usize,
    pub age_ms: u64,
}

} // verus!
