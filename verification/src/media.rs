//! Media on the wire: UDP packets, RTP headers, transport encryption, and the frames
//! that packets carry.

pub mod assembler;
pub mod crypto;
pub mod endpoint;
pub mod header;
pub mod laws;
pub mod nonce;
pub mod outbound;
pub mod raw;

pub use assembler::RtpFrameAssembler;
pub use crypto::{TransportCrypto, TransportCryptoConfig};
pub use endpoint::{
    ordered_voice_socket_addrs, AddressAttempts, IpAddress, SocketAddress, VoiceEndpoint,
    VoiceUdpRemote,
};
pub use header::{RtpHeader, RtpHeaderBuilder, RtpHeaderFields};
pub use nonce::{HeartbeatNonce, RtpSizeNonceSuffix};
pub use outbound::{
    timestamp_increment, OutboundCodecBinding, OutboundPacket, OutboundRtpState,
};
pub use raw::{
    DecodedFrame, DecodedFrameMetadata, DecodedPcmLayout, FrameRaw, NoRawPackets,
    RawFramePackets, RawUdpPacket, RawUdpPacketInfo, ReceivedFrame,
};
