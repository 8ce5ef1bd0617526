//! The outgoing stream: sequence numbers, timestamps and nonces.

use super::crypto::{
    sealed_packet, seal_failure, too_long_to_seal, within_keystream, OutboundEncryptParams,
    TransportCrypto,
};
use super::header::{RtpHeader, RtpHeaderFields};
use super::nonce::RtpSizeNonceSuffix;
use crate::codec::{Codec, MediaType};
use crate::codecs::{clock_rate, descriptor, payload_number, DiscordCodecDescriptor};
use crate::errors::{Error, InvalidInputError, TransportCryptoError};
use crate::rtp::RtpPayloadType;
use crate::time::Duration;
use vstd::prelude::*;

verus! {

/// A packet that was made, as far as it is reported.
#[derive(Clone, Copy, Debug, PartialEq, Eq, Structural)]
pub struct OutboundPacket {
    pub rtp: RtpHeader,
    pub nonce_suffix: RtpSizeNonceSuffix,
    pub payload_bytes: usize,
    pub packet_bytes: usize,
}

/// The codec that a stream is in, and the source that it comes from.
#[derive(Clone, Copy, Debug, PartialEq, Eq)]
pub struct OutboundCodecBinding {
    ssrc: u32,
    descriptor: DiscordCodecDescriptor,
}

impl OutboundCodecBinding {
    #[verifier::type_invariant]
    spec fn described(self) -> bool {
        &&& self.descriptor.payload_type == RtpPayloadType::of(
            payload_number(self.descriptor.codec),
        )
        &&& self.descriptor.clock_rate_hz == clock_rate(self.descriptor.codec)
    }

    pub closed spec fn of_codec(self) -> Codec {
        self.descriptor.codec
    }

    pub closed spec fn of_ssrc(self) -> u32 {
        self.ssrc
    }

    pub fn new(codec: Codec, ssrc: u32) -> (binding: Self)
        ensures
            binding.of_codec() == codec,
            binding.of_ssrc() == ssrc,
    {
        OutboundCodecBinding { ssrc, descriptor: descriptor(codec) }
    }

    pub fn codec(self) -> (codec: Codec)
        ensures
            codec == self.of_codec(),
    {
        self.descriptor.codec
    }

    pub fn media_type(self) -> (media_type: MediaType)
        ensures
            media_type == self.of_codec().media(),
    {
        self.descriptor.media_type()
    }

    pub fn payload_type(self) -> (payload_type: RtpPayloadType)
        ensures
            payload_type == RtpPayloadType::of(payload_number(self.of_codec())),
    {
        proof {
            use_type_invariant(&self);
        }
        self.descriptor.payload_type
    }

    pub fn sample_rate(self) -> (rate: u32)
        ensures
            rate == clock_rate(self.of_codec()),
    {
        proof {
            use_type_invariant(&self);
        }
        self.descriptor.clock_rate_hz
    }

    pub fn ssrc(self) -> (ssrc: u32)
        ensures
            ssrc == self.of_ssrc(),
    {
        self.ssrc
    }
}

/// How many ticks of a clock pass in a span of time: at least one, and as many as a
/// timestamp can count.
pub open spec fn ticks(sample_rate: u32, nanos: u128) -> u32 {
    let samples = sample_rate * nanos / 1_000_000_000;
    if samples < 1 {
        1
    } else if samples > u32::MAX {
        u32::MAX
    } else {
        samples as u32
    }
}

pub fn timestamp_increment(sample_rate: u32, duration: Duration) -> (increment: u32)
    ensures
        increment == ticks(sample_rate, duration.nanos),
{
    let nanos: u128 = duration.as_nanos();
    assert(0 <= sample_rate * nanos) by (nonlinear_arith)
        requires
            0 <= sample_rate,
            0 <= nanos,
    ;
    let samples: u128 = match (sample_rate as u128).checked_mul(nanos) {
        Some(product) => product / 1_000_000_000,
        None => u128::MAX / 1_000_000_000,
    };
    if samples < 1 {
        1
    } else if samples > u32::MAX as u128 {
        u32::MAX
    } else {
        samples as u32
    }
}

/// Where an outgoing stream stands.
#[derive(Clone, Debug, PartialEq, Eq)]
pub struct OutboundRtpState {
    seq: u16,
    timestamp: u32,
    nonce_suffix: RtpSizeNonceSuffix,
    binding: OutboundCodecBinding,
}

impl OutboundRtpState {
    /// The sequence number of the next packet.
    pub closed spec fn next_seq(self) -> u16 {
        self.seq
    }

    /// The timestamp of the next packet.
    pub closed spec fn next_timestamp(self) -> u32 {
        self.timestamp
    }

    /// The nonce of the next packet.
    pub closed spec fn next_nonce(self) -> RtpSizeNonceSuffix {
        self.nonce_suffix
    }

    pub closed spec fn bound_codec(self) -> Codec {
        self.binding.of_codec()
    }

    pub closed spec fn bound_ssrc(self) -> u32 {
        self.binding.of_ssrc()
    }

    /// What the next packet is made with.
    pub open spec fn next_params(self, marker: bool) -> OutboundEncryptParams {
        OutboundEncryptParams {
            header: RtpHeaderFields {
                seq: self.next_seq(),
                timestamp: self.next_timestamp(),
                ssrc: self.bound_ssrc(),
                payload_type: RtpPayloadType::of(payload_number(self.bound_codec())),
            },
            marker,
            nonce_suffix: self.next_nonce(),
        }
    }

    /// Whether `after` is where the stream stands once a packet has gone out. The
    /// timestamp moves with every audio packet, and with the last packet of a video
    /// frame.
    pub open spec fn moved_on(self, after: Self, marker: bool, duration: Duration) -> bool {
        &&& after.next_seq() == (self.next_seq() + 1) % 0x1_0000
        &&& after.next_timestamp() == (if self.bound_codec().media() == MediaType::Audio || marker {
            (self.next_timestamp() + ticks(clock_rate(self.bound_codec()), duration.nanos))
                % 0x1_0000_0000
        } else {
            self.next_timestamp() as int
        })
        &&& after.next_nonce()@ == (self.next_nonce()@ + 1) % 0x1_0000_0000
        &&& after.bound_codec() == self.bound_codec()
        &&& after.bound_ssrc() == self.bound_ssrc()
    }

    /// Whether making the next packet turned the stream into `after`. An empty payload is
    /// refused; nothing moves on where no packet was made.
    pub open spec fn built(
        self,
        after: Self,
        frame: Seq<u8>,
        marker: bool,
        duration: Duration,
        crypto: TransportCrypto,
        old_packet: Seq<u8>,
        new_packet: Seq<u8>,
        outbound: Result<OutboundPacket, Error>,
    ) -> bool {
        if frame.len() == 0 {
            &&& outbound == Err::<OutboundPacket, Error>(
                Error::InvalidInput(InvalidInputError::EmptyPayload { codec: self.bound_codec() }),
            )
            &&& after == self
            &&& new_packet == old_packet
        } else if too_long_to_seal(crypto.mode(), frame.len() as int) {
            &&& outbound == Err::<OutboundPacket, Error>(
                Error::TransportCrypto(seal_failure(crypto.mode())),
            )
            &&& after == self
        } else {
            &&& outbound == Ok::<OutboundPacket, Error>(
                OutboundPacket {
                    rtp: self.next_params(marker).header.header(marker),
                    nonce_suffix: self.next_nonce(),
                    payload_bytes: frame.len() as usize,
                    packet_bytes: (frame.len() + 32) as usize,
                },
            )
            &&& new_packet == sealed_packet(
                crypto.mode(),
                crypto.key(),
                self.next_params(marker),
                frame,
            )
            &&& new_packet.len() == frame.len() + 32
            &&& self.moved_on(after, marker, duration)
        }
    }

    /// A stream that begins at zero, under a random nonce.
    pub fn new(binding: OutboundCodecBinding) -> (state: Result<Self, Error>)
        ensures
            match state {
                Ok(state) => state.next_seq() == 0 && state.next_timestamp() == 0
                    && state.bound_codec() == binding.of_codec() && state.bound_ssrc()
                    == binding.of_ssrc(),
                Err(error) => error == Error::TransportCrypto(
                    TransportCryptoError::NonceRandomnessUnavailable,
                ),
            },
    {
        match RtpSizeNonceSuffix::initial() {
            Ok(nonce_suffix) => Ok(Self::starting_at(binding, nonce_suffix)),
            Err(error) => Err(error),
        }
    }

    /// A stream that begins at zero, under a given nonce.
    pub fn starting_at(binding: OutboundCodecBinding, nonce_suffix: RtpSizeNonceSuffix) -> (state:
        Self)
        ensures
            state.next_seq() == 0,
            state.next_timestamp() == 0,
            state.next_nonce() == nonce_suffix,
            state.bound_codec() == binding.of_codec(),
            state.bound_ssrc() == binding.of_ssrc(),
    {
        OutboundRtpState { seq: 0, timestamp: 0, nonce_suffix, binding }
    }

    pub fn codec(&self) -> (codec: Codec)
        ensures
            codec == self.bound_codec(),
    {
        self.binding.codec()
    }

    pub fn ssrc(&self) -> (ssrc: u32)
        ensures
            ssrc == self.bound_ssrc(),
    {
        self.binding.ssrc()
    }

    /// Goes on with another codec or source, without starting over.
    pub fn update_binding(&mut self, binding: OutboundCodecBinding)
        ensures
            final(self).next_seq() == old(self).next_seq(),
            final(self).next_timestamp() == old(self).next_timestamp(),
            final(self).next_nonce() == old(self).next_nonce(),
            final(self).bound_codec() == binding.of_codec(),
            final(self).bound_ssrc() == binding.of_ssrc(),
    {
        self.binding = binding;
    }

    fn move_on(&mut self, marker: bool, duration: Duration)
        ensures
            old(self).moved_on(*final(self), marker, duration),
    {
        self.seq = self.seq.wrapping_add(1);
        if self.binding.media_type() == MediaType::Audio || marker {
            self.timestamp = self.timestamp.wrapping_add(
                timestamp_increment(self.binding.sample_rate(), duration),
            );
        }
        self.nonce_suffix.increment();
    }

    /// Seals the next packet of the stream. An empty payload is refused; nothing moves
    /// on where no packet was made.
    pub fn build_packet(
        &mut self,
        frame: &[u8],
        marker: bool,
        duration: Duration,
        transport_crypto: &TransportCrypto,
        packet: &mut Vec<u8>,
    ) -> (outbound: Result<OutboundPacket, Error>)
        requires
            within_keystream(transport_crypto.mode(), frame@.len() as int),
        ensures
            old(self).built(
                *final(self),
                frame@,
                marker,
                duration,
                *transport_crypto,
                old(packet)@,
                final(packet)@,
                outbound,
            ),
    {
        if frame.len() == 0 {
            return Err(
                Error::InvalidInput(InvalidInputError::EmptyPayload { codec: self.binding.codec() }),
            );
        }
        let payload_bytes: usize = frame.len();
        let nonce_suffix = self.nonce_suffix;
        let params = OutboundEncryptParams {
            header: RtpHeaderFields {
                seq: self.seq,
                timestamp: self.timestamp,
                ssrc: self.binding.ssrc(),
                payload_type: self.binding.payload_type(),
            },
            marker,
            nonce_suffix,
        };
        let rtp = match transport_crypto.encrypt_payload(params, frame, packet) {
            Ok(rtp) => rtp,
            Err(error) => {
                return Err(error);
            },
        };
        self.move_on(marker, duration);
        let packet_bytes: usize = packet.len();
        Ok(OutboundPacket { rtp, nonce_suffix, payload_bytes, packet_bytes })
    }
}

/// Whether each state of a stream is what its packet made of the one before.
pub open spec fn in_turn(states: Seq<OutboundRtpState>, markers: Seq<bool>, duration: Duration) -> bool {
    &&& states.len() == markers.len() + 1
    &&& forall|i: int|
        0 <= i < markers.len() ==> states[i].moved_on(
            states[i + 1],
            #[trigger] markers[i],
            duration,
        )
}

proof fn lemma_nonce_after(
    states: Seq<OutboundRtpState>,
    markers: Seq<bool>,
    duration: Duration,
    i: int,
)
    requires
        in_turn(states, markers, duration),
        0 <= i < states.len(),
    ensures
        states[i].next_nonce()@ == (states[0].next_nonce()@ + i) % 0x1_0000_0000,
        states[i].next_seq() == (states[0].next_seq() + i) % 0x1_0000,
        states[i].bound_ssrc() == states[0].bound_ssrc(),
    decreases i,
{
    if i > 0 {
        lemma_nonce_after(states, markers, duration, i - 1);
        let marker = markers[i - 1];
        assert(states[i - 1].moved_on(states[i], marker, duration));
    }
}

/// The packets of a stream are numbered in turn, and no two of them are sealed under the
/// same nonce before all nonces were used.
pub proof fn law_nonces_are_used_once(
    states: Seq<OutboundRtpState>,
    markers: Seq<bool>,
    duration: Duration,
    i: int,
    j: int,
)
    requires
        in_turn(states, markers, duration),
        0 <= i < j < states.len(),
    ensures
        states[j].next_seq() == (states[i].next_seq() + (j - i)) % 0x1_0000,
        j - i < 0x1_0000_0000 ==> states[i].next_nonce()@ != states[j].next_nonce()@,
{
    lemma_nonce_after(states, markers, duration, i);
    lemma_nonce_after(states, markers, duration, j);
}

} // verus!
