//! From frames to packets.

use crate::codec::{Codec, MediaType};
use crate::codecs::{video_codec, video_codec_named};
use crate::errors::{Error, InvalidInputError, ProtocolError, TransportCryptoError};
use crate::gateway::ready::video_stream;
use crate::media::{
    OutboundCodecBinding, OutboundPacket, OutboundRtpState, RtpSizeNonceSuffix, TransportCrypto,
};
use crate::rtp_payload::laws::law_every_payload_fits;
use crate::rtp_payload::{frame_plan, frame_refusal, RtpPayloadPacketizer, RtpPlan};
use crate::state::connection::StateView;
use crate::state::ConnectionInternalState;
use crate::time::Duration;
use vstd::prelude::*;

verus! {

/// The video that both sides agreed on.
#[derive(Clone, Copy, Debug, PartialEq, Eq, Structural)]
pub struct NegotiatedVideoMedia {
    pub codec: Codec,
    pub ssrc: u32,
}

/// The video that was agreed on: the codec of the session, on the stream that video is
/// sent on.
pub open spec fn agreed_video(state: StateView) -> Option<NegotiatedVideoMedia> {
    match state.session_description {
        Some(description) => match description.video_codec {
            Some(name) => match (video_codec_named(name@), video_stream(state.ready.streams@)) {
                (Some(codec), Some(at)) => Some(
                    NegotiatedVideoMedia { codec, ssrc: state.ready.streams@[at].ssrc },
                ),
                _ => None,
            },
            None => None,
        },
        None => None,
    }
}

pub fn negotiated_video_media(state: &ConnectionInternalState) -> (video: Option<
    NegotiatedVideoMedia,
>)
    ensures
        video == agreed_video(state@),
{
    let description = match &state.session_description {
        Some(description) => description,
        None => {
            return None;
        },
    };
    let codec = match &description.video_codec {
        Some(name) => match video_codec(name.as_str()) {
            Some(codec) => codec,
            None => {
                return None;
            },
        },
        None => {
            return None;
        },
    };
    match state.ready.primary_video_stream() {
        Some(stream) => Some(NegotiatedVideoMedia { codec, ssrc: stream.ssrc }),
        None => None,
    }
}

/// The outgoing streams of a connection.
pub struct SendPipeline {
    pub outbound_audio_rtp: OutboundRtpState,
    pub outbound_video_rtp: Option<OutboundRtpState>,
}

/// Whether a stream is at its start.
pub open spec fn starts(rtp: OutboundRtpState, codec: Codec, ssrc: u32) -> bool {
    &&& rtp.next_seq() == 0
    &&& rtp.next_timestamp() == 0
    &&& rtp.bound_codec() == codec
    &&& rtp.bound_ssrc() == ssrc
}

/// The error where there is no randomness for a nonce.
pub open spec fn no_randomness() -> Error {
    Error::TransportCrypto(TransportCryptoError::NonceRandomnessUnavailable)
}

/// A frame on its way: what is left of it, and the packet that was made last.
pub struct OutboundFrame<'a> {
    pub codec: Codec,
    pub packetizer: RtpPayloadPacketizer<'a>,
    pub duration: Duration,
    pub last_packet: Option<OutboundPacket>,
}

impl<'a> OutboundFrame<'a> {
    /// Whether every payload that is left fits in a packet.
    pub open spec fn fits(self) -> bool {
        forall|i: int|
            0 <= i < self.packetizer.plan().chunks.len() ==> (
            #[trigger] self.packetizer.plan().chunks[i]).payload.len() <= 1_200
    }
}

/// What comes of a step: a packet to be sent, or the packet that was the last one.
pub enum MediaStep {
    Send(OutboundPacket),
    Finished(OutboundPacket),
}

impl SendPipeline {
    /// The stream that a codec goes out on.
    pub open spec fn stream(self, codec: Codec) -> Option<OutboundRtpState> {
        match codec.media() {
            MediaType::Audio => Some(self.outbound_audio_rtp),
            MediaType::Video => self.outbound_video_rtp,
        }
    }

    /// Why a codec cannot go out, if it cannot.
    pub open spec fn refuses(self, codec: Codec) -> Option<Error> {
        match self.stream(codec) {
            None => Some(Error::Protocol(ProtocolError::MissingVideoSsrc { codec })),
            Some(rtp) => if rtp.bound_codec() != codec {
                Some(
                    Error::Protocol(
                        ProtocolError::MediaCodecNotNegotiated {
                            codec,
                            negotiated_codec: Some(rtp.bound_codec()),
                        },
                    ),
                )
            } else {
                None
            },
        }
    }

    /// Streams at their start: audio on the source that the gateway gave, and the video
    /// that was agreed on. Each needs a nonce to begin with.
    pub fn new(state: &ConnectionInternalState) -> (pipeline: Result<Self, Error>)
        ensures
            match pipeline {
                Ok(pipeline) => pipeline.starts_for(state@),
                Err(error) => error == no_randomness(),
            },
    {
        let audio_nonce = match RtpSizeNonceSuffix::initial() {
            Ok(nonce) => nonce,
            Err(error) => {
                return Err(error);
            },
        };
        let video_nonce = match negotiated_video_media(state) {
            Some(_) => Some(RtpSizeNonceSuffix::initial()),
            None => None,
        };
        Self::starting_with(state, Ok(audio_nonce), video_nonce)
    }

    /// Streams at their start, under the nonces that were drawn for them. Where one that is
    /// needed could not be drawn, the first such error is returned.
    pub fn starting_with(
        state: &ConnectionInternalState,
        audio_nonce: Result<RtpSizeNonceSuffix, Error>,
        video_nonce: Option<Result<RtpSizeNonceSuffix, Error>>,
    ) -> (pipeline: Result<Self, Error>)
        requires
            audio_nonce is Ok && agreed_video(state@) is Some ==> video_nonce is Some,
        ensures
            match audio_nonce {
                Err(error) => pipeline == Err::<Self, Error>(error),
                Ok(audio_nonce) => match agreed_video(state@) {
                    None => {
                        &&& pipeline matches Ok(pipeline)
                        &&& pipeline.starts_for(state@)
                        &&& pipeline.outbound_audio_rtp.next_nonce() == audio_nonce
                    },
                    Some(_) => match video_nonce->0 {
                        Err(error) => pipeline == Err::<Self, Error>(error),
                        Ok(video_nonce) => {
                            &&& pipeline matches Ok(pipeline)
                            &&& pipeline.starts_for(state@)
                            &&& pipeline.outbound_audio_rtp.next_nonce() == audio_nonce
                            &&& pipeline.outbound_video_rtp->0.next_nonce() == video_nonce
                        },
                    },
                },
            },
    {
        let audio_nonce = match audio_nonce {
            Ok(nonce) => nonce,
            Err(error) => {
                return Err(error);
            },
        };
        let outbound_audio_rtp = OutboundRtpState::starting_at(
            OutboundCodecBinding::new(Codec::Opus, state.ready.ssrc),
            audio_nonce,
        );
        let outbound_video_rtp = match (negotiated_video_media(state), video_nonce) {
            (Some(video), Some(Ok(nonce))) => Some(
                OutboundRtpState::starting_at(
                    OutboundCodecBinding::new(video.codec, video.ssrc),
                    nonce,
                ),
            ),
            (Some(_), Some(Err(error))) => {
                return Err(error);
            },
            _ => None,
        };
        Ok(SendPipeline { outbound_audio_rtp, outbound_video_rtp })
    }

    /// What comes of a new agreement on video: a stream from the same source goes on where
    /// it is, and any other one starts.
    pub open spec fn negotiated(
        self,
        video: Option<NegotiatedVideoMedia>,
        after: SendPipeline,
        result: Result<(), Error>,
    ) -> bool {
        &&& after.outbound_audio_rtp == self.outbound_audio_rtp
        &&& match video {
            None => result is Ok && after.outbound_video_rtp is None,
            Some(video) => match self.outbound_video_rtp {
                Some(rtp) if rtp.bound_ssrc() == video.ssrc => {
                    &&& result is Ok
                    &&& after.outbound_video_rtp matches Some(moved) && moved.next_seq()
                        == rtp.next_seq() && moved.next_timestamp() == rtp.next_timestamp()
                        && moved.next_nonce() == rtp.next_nonce() && moved.bound_codec()
                        == video.codec && moved.bound_ssrc() == video.ssrc
                },
                _ => match result {
                    Ok(()) => after.outbound_video_rtp matches Some(rtp) && starts(
                        rtp,
                        video.codec,
                        video.ssrc,
                    ),
                    Err(error) => error == no_randomness() && after.outbound_video_rtp
                        == self.outbound_video_rtp,
                },
            },
        }
    }

    /// Whether these are streams at their start: audio on the source that the gateway gave,
    /// and the video that was agreed on.
    pub open spec fn starts_for(self, state: StateView) -> bool {
        &&& starts(self.outbound_audio_rtp, Codec::Opus, state.ready.ssrc)
        &&& match agreed_video(state) {
            Some(video) => self.outbound_video_rtp matches Some(rtp) && starts(
                rtp,
                video.codec,
                video.ssrc,
            ),
            None => self.outbound_video_rtp is None,
        }
    }

    /// Whether a new agreement on video begins a stream, which needs a nonce.
    pub open spec fn begins_stream(self, video: Option<NegotiatedVideoMedia>) -> bool {
        video matches Some(video) && !(self.outbound_video_rtp matches Some(rtp)
            && rtp.bound_ssrc() == video.ssrc)
    }

    /// What comes of a new agreement on video, with what was drawn where a stream begins:
    /// it begins under the nonce, and where there is none, nothing changes.
    pub open spec fn followed(
        self,
        video: Option<NegotiatedVideoMedia>,
        drawn: Option<Result<RtpSizeNonceSuffix, Error>>,
        after: SendPipeline,
        result: Result<(), Error>,
    ) -> bool {
        if self.begins_stream(video) {
            match drawn->0 {
                Ok(nonce) => {
                    &&& result == Ok::<(), Error>(())
                    &&& after.outbound_audio_rtp == self.outbound_audio_rtp
                    &&& after.outbound_video_rtp matches Some(rtp)
                    &&& starts(rtp, video->0.codec, video->0.ssrc)
                    &&& rtp.next_nonce() == nonce
                },
                Err(error) => result == Err::<(), Error>(error) && after == self,
            }
        } else {
            &&& result == Ok::<(), Error>(())
            &&& self.negotiated(video, after, result)
        }
    }

    /// Draws a nonce where the agreement that there is now begins a stream.
    pub fn draw_nonce(&self, state: &ConnectionInternalState) -> (drawn: Option<
        Result<RtpSizeNonceSuffix, Error>,
    >)
        ensures
            drawn is Some == self.begins_stream(agreed_video(state@)),
            drawn matches Some(Err(error)) ==> error == no_randomness(),
    {
        match (negotiated_video_media(state), &self.outbound_video_rtp) {
            (Some(video), Some(rtp)) if rtp.ssrc() == video.ssrc => None,
            (Some(_), _) => Some(RtpSizeNonceSuffix::initial()),
            (None, _) => None,
        }
    }

    /// Follows a new agreement on video. A stream from the same source goes on where it
    /// is; any other one starts.
    pub fn update_negotiated_media(&mut self, state: &ConnectionInternalState) -> (result: Result<
        (),
        Error,
    >)
        ensures
            old(self).negotiated(agreed_video(state@), *final(self), result),
    {
        let drawn = self.draw_nonce(state);
        self.follow_agreement(state, drawn)
    }

    /// Follows a new agreement on video, with the nonce that was drawn for it where a
    /// stream begins.
    pub fn follow_agreement(
        &mut self,
        state: &ConnectionInternalState,
        drawn: Option<Result<RtpSizeNonceSuffix, Error>>,
    ) -> (result: Result<(), Error>)
        requires
            old(self).begins_stream(agreed_video(state@)) ==> drawn is Some,
        ensures
            old(self).followed(agreed_video(state@), drawn, *final(self), result),
    {
        let video = match negotiated_video_media(state) {
            Some(video) => video,
            None => {
                self.outbound_video_rtp = None;
                return Ok(());
            },
        };
        let binding = OutboundCodecBinding::new(video.codec, video.ssrc);
        let same = match &self.outbound_video_rtp {
            Some(rtp) => rtp.ssrc() == video.ssrc,
            None => false,
        };
        if same {
            let mut slot: Option<OutboundRtpState> = None;
            std::mem::swap(&mut slot, &mut self.outbound_video_rtp);
            if let Some(mut rtp) = slot {
                rtp.update_binding(binding);
                self.outbound_video_rtp = Some(rtp);
            }
            return Ok(());
        }
        match drawn {
            Some(Ok(nonce)) => {
                self.outbound_video_rtp = Some(OutboundRtpState::starting_at(binding, nonce));
                Ok(())
            },
            Some(Err(error)) => Err(error),
            None => Ok(()),
        }
    }

    /// Begins with a frame. One that cannot be cut up is refused, and one whose codec was
    /// not agreed on.
    pub fn begin_frame<'a>(&self, codec: Codec, payload: &'a [u8], duration: Duration) -> (frame:
        Result<OutboundFrame<'a>, Error>)
        ensures
            match frame_refusal(codec, payload@) {
                Some(error) => frame == Err::<OutboundFrame<'a>, Error>(Error::Rtp(error)),
                None => match self.refuses(codec) {
                    Some(error) => frame == Err::<OutboundFrame<'a>, Error>(error),
                    None => frame matches Ok(frame) && frame.codec == codec
                        && frame.packetizer.plan() == frame_plan(codec, payload@)
                        && frame.duration == duration && frame.last_packet is None && frame.fits(),
                },
            },
    {
        let packetizer = match RtpPayloadPacketizer::new(codec, payload) {
            Ok(packetizer) => packetizer,
            Err(error) => {
                return Err(Error::Rtp(error));
            },
        };
        let negotiated = match codec.media_type() {
            MediaType::Audio => self.outbound_audio_rtp.codec(),
            MediaType::Video => match &self.outbound_video_rtp {
                Some(rtp) => rtp.codec(),
                None => {
                    return Err(Error::Protocol(ProtocolError::MissingVideoSsrc { codec }));
                },
            },
        };
        if negotiated != codec {
            return Err(
                Error::Protocol(
                    ProtocolError::MediaCodecNotNegotiated {
                        codec,
                        negotiated_codec: Some(negotiated),
                    },
                ),
            );
        }
        let frame = OutboundFrame { codec, packetizer, duration, last_packet: None };
        proof {
            assert forall|i: int| 0 <= i < frame.packetizer.plan().chunks.len() implies (
            #[trigger] frame.packetizer.plan().chunks[i]).payload.len() <= 1_200 by {
                law_every_payload_fits(codec, payload@, i);
            }
        }
        Ok(frame)
    }

    /// Makes the next packet of a frame, or says that the one before was the last.
    pub fn next_packet<'a>(
        &mut self,
        frame: &mut OutboundFrame<'a>,
        crypto: &TransportCrypto,
        packet: &mut Vec<u8>,
    ) -> (step: Result<MediaStep, Error>)
        requires
            old(frame).fits(),
        ensures
            final(frame).fits(),
            final(frame).codec == old(frame).codec,
            final(frame).duration == old(frame).duration,
            ({
                let plan = old(frame).packetizer.plan();
                let codec = old(frame).codec;
                if plan.chunks.len() == 0 {
                    &&& *final(self) == *old(self)
                    &&& final(packet)@ == old(packet)@
                    &&& final(frame).last_packet == old(frame).last_packet
                    &&& step == (match plan.failure {
                        Some(error) => Err::<MediaStep, Error>(Error::Rtp(error)),
                        None => match old(frame).last_packet {
                            Some(last) => Ok::<MediaStep, Error>(MediaStep::Finished(last)),
                            None => Err::<MediaStep, Error>(
                                Error::InvalidInput(InvalidInputError::EmptyPayload { codec }),
                            ),
                        },
                    })
                } else {
                    &&& final(frame).packetizer.plan() == (RtpPlan {
                        chunks: plan.chunks.drop_first(),
                        failure: plan.failure,
                    })
                    &&& match old(self).stream(codec) {
                        None => step == Err::<MediaStep, Error>(
                            Error::Protocol(ProtocolError::MissingVideoSsrc { codec }),
                        ) && *final(self) == *old(self),
                        Some(rtp) => {
                            &&& final(self).stream(codec) matches Some(after) && rtp.built(
                                after,
                                plan.chunks[0].payload,
                                plan.chunks[0].marker,
                                old(frame).duration,
                                *crypto,
                                old(packet)@,
                                final(packet)@,
                                built_packet(step),
                            )
                            &&& step matches Ok(made) ==> made is Send
                            &&& final(frame).last_packet == (match step {
                                Ok(MediaStep::Send(made)) => Some(made),
                                _ => old(frame).last_packet,
                            })
                            &&& codec.media() == MediaType::Audio ==> final(self).outbound_video_rtp
                                == old(self).outbound_video_rtp
                            &&& codec.media() == MediaType::Video ==> final(self).outbound_audio_rtp
                                == old(self).outbound_audio_rtp
                        },
                    }
                }
            }),
    {
        let codec = frame.codec;
        let mut payload: Vec<u8> = Vec::new();
        let ghost plan = frame.packetizer.plan();
        let marker = match frame.packetizer.next(&mut payload) {
            Ok(Some(marker)) => marker,
            Ok(None) => {
                return match frame.last_packet {
                    Some(last) => Ok(MediaStep::Finished(last)),
                    None => Err(Error::InvalidInput(InvalidInputError::EmptyPayload { codec })),
                };
            },
            Err(error) => {
                return Err(Error::Rtp(error));
            },
        };
        proof {
            assert(plan.chunks[0].payload.len() <= 1_200);
            assert forall|i: int| 0 <= i < frame.packetizer.plan().chunks.len() implies (
            #[trigger] frame.packetizer.plan().chunks[i]).payload.len() <= 1_200 by {
                assert(frame.packetizer.plan().chunks[i] == plan.chunks[i + 1]);
            }
        }
        let duration = frame.duration;
        let built = match codec.media_type() {
            MediaType::Audio => self.outbound_audio_rtp.build_packet(
                payload.as_slice(),
                marker,
                duration,
                crypto,
                packet,
            ),
            MediaType::Video => {
                let mut slot: Option<OutboundRtpState> = None;
                std::mem::swap(&mut slot, &mut self.outbound_video_rtp);
                match slot {
                    Some(mut rtp) => {
                        let built = rtp.build_packet(
                            payload.as_slice(),
                            marker,
                            duration,
                            crypto,
                            packet,
                        );
                        self.outbound_video_rtp = Some(rtp);
                        built
                    },
                    None => {
                        return Err(Error::Protocol(ProtocolError::MissingVideoSsrc { codec }));
                    },
                }
            },
        };
        match built {
            Ok(made) => {
                frame.last_packet = Some(made);
                Ok(MediaStep::Send(made))
            },
            Err(error) => Err(error),
        }
    }
}

/// The packet that a step made.
pub open spec fn built_packet(step: Result<MediaStep, Error>) -> Result<OutboundPacket, Error> {
    match step {
        Ok(MediaStep::Send(packet)) => Ok(packet),
        Ok(MediaStep::Finished(packet)) => Ok(packet),
        Err(error) => Err(error),
    }
}

} // verus!
