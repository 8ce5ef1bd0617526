//! What the gateway offers once it knows who connects.

use super::command::PRIMARY_VIDEO_QUALITY;
use crate::errors::{Error, ProtocolError};
use crate::state::{EncryptionMode, OfferedEncryptionMode, ValidatedConnectionOptions};
use crate::text::same_text;
use vstd::prelude::*;

verus! {

#[derive(Debug, PartialEq, Eq)]
pub struct GatewayReady {
    pub ssrc: u32,
    pub ip: String,
    pub port: u16,
    pub modes: Vec<OfferedEncryptionMode>,
    pub heartbeat_interval: Option<u64>,
    pub streams: Vec<GatewayReadyStream>,
}

#[derive(Debug, PartialEq, Eq)]
pub struct GatewayReadyStream {
    pub kind: Option<String>,
    pub rid: Option<String>,
    pub ssrc: u32,
    pub rtx_ssrc: Option<u32>,
    pub quality: Option<u8>,
    pub active: Option<bool>,
}

/// The sources of the video that is sent.
#[derive(Clone, Copy, Debug, PartialEq, Eq, Structural)]
pub struct GatewayReadyVideoStream {
    pub ssrc: u32,
    pub rtx_ssrc: Option<u32>,
}

/// Whether a mode is among those that are offered.
pub open spec fn offered(modes: Seq<OfferedEncryptionMode>, mode: EncryptionMode) -> bool {
    exists|i: int|
        0 <= i < modes.len() && EncryptionMode::named((#[trigger] modes[i])@) == Some(mode)
}

impl GatewayReadyStream {
    pub open spec fn active_video(self) -> bool {
        &&& self.kind matches Some(kind) && kind@ == "video"@
        &&& self.active != Some(false)
    }

    fn is_active_video(&self) -> (answer: bool)
        ensures
            answer == self.active_video(),
    {
        let video = match &self.kind {
            Some(kind) => same_text(kind.as_str(), "video"),
            None => false,
        };
        video && self.active != Some(false)
    }

    /// How much a stream is preferred: the one that was asked for, then one of its
    /// quality, then the better quality.
    pub open spec fn rank(self) -> int {
        (if self.rid matches Some(rid) && rid@ == "100"@ {
            512int
        } else {
            0int
        }) + (if self.quality == Some(PRIMARY_VIDEO_QUALITY) {
            256int
        } else {
            0int
        }) + (match self.quality {
            Some(quality) => quality as int,
            None => 0int,
        })
    }

    fn score(&self) -> (score: u32)
        ensures
            score == self.rank(),
    {
        let asked = match &self.rid {
            Some(rid) => same_text(rid.as_str(), "100"),
            None => false,
        };
        let quality: u32 = match self.quality {
            Some(quality) => quality as u32,
            None => 0,
        };
        let base: u32 = if asked {
            512
        } else {
            0
        };
        if self.quality == Some(PRIMARY_VIDEO_QUALITY) {
            base + 256 + quality
        } else {
            base + quality
        }
    }
}

/// The active video stream that is preferred; of equals, the last.
pub open spec fn preferred_stream(streams: Seq<GatewayReadyStream>) -> Option<int>
    decreases streams.len(),
{
    if streams.len() == 0 {
        None
    } else {
        let before = preferred_stream(streams.drop_last());
        let last = streams.last();
        if !last.active_video() {
            before
        } else {
            match before {
                Some(i) if streams[i].rank() > last.rank() => before,
                _ => Some(streams.len() - 1),
            }
        }
    }
}

/// The stream that video is sent on: the preferred one, or the only one that there is if
/// it is not inactive.
pub open spec fn video_stream(streams: Seq<GatewayReadyStream>) -> Option<int> {
    match preferred_stream(streams) {
        Some(i) => Some(i),
        None => if streams.len() == 1 && streams[0].active != Some(false) {
            Some(0)
        } else {
            None
        },
    }
}

impl GatewayReady {
    /// The mode that is taken: the required one if it is offered, else the best that is.
    pub open spec fn chosen_mode(self, required: Option<EncryptionMode>) -> Option<
        EncryptionMode,
    > {
        match required {
            Some(mode) => if offered(self.modes@, mode) {
                Some(mode)
            } else {
                None
            },
            None => if offered(self.modes@, EncryptionMode::AeadAes256GcmRtpSize) {
                Some(EncryptionMode::AeadAes256GcmRtpSize)
            } else if offered(self.modes@, EncryptionMode::AeadXChaCha20Poly1305RtpSize) {
                Some(EncryptionMode::AeadXChaCha20Poly1305RtpSize)
            } else {
                None
            },
        }
    }

    /// What comes of choosing a mode.
    pub open spec fn mode_told(
        self,
        required: Option<EncryptionMode>,
        mode: Result<EncryptionMode, Error>,
    ) -> bool {
        if self.modes@.len() == 0 {
            mode == Err::<EncryptionMode, Error>(
                Error::Protocol(ProtocolError::ReadyMissingEncryptionModes),
            )
        } else {
            match self.chosen_mode(required) {
                Some(chosen) => mode == Ok::<EncryptionMode, Error>(chosen),
                None => match required {
                    Some(required) => {
                        &&& mode matches Err(
                            Error::Protocol(
                                ProtocolError::RequiredEncryptionModeUnavailable {
                                    required_mode,
                                    modes,
                                },
                            ),
                        )
                        &&& required_mode == required
                        &&& modes@ == self.modes@
                    },
                    None => {
                        &&& mode matches Err(
                            Error::Protocol(
                                ProtocolError::ReadyMissingSupportedEncryptionMode { modes },
                            ),
                        )
                        &&& modes@ == self.modes@
                    },
                },
            }
        }
    }

    /// Chooses the encryption mode. Refused: no modes at all, a required mode that is not
    /// among them, or none that this library speaks.
    pub fn select_encryption_mode(&self, options: &ValidatedConnectionOptions) -> (mode: Result<
        EncryptionMode,
        Error,
    >)
        ensures
            self.mode_told(options.required_mode, mode),
    {
        if self.modes.len() == 0 {
            return Err(Error::Protocol(ProtocolError::ReadyMissingEncryptionModes));
        }
        if let Some(required_mode) = options.required_mode {
            if self.offers_mode(required_mode) {
                return Ok(required_mode);
            }
            return Err(
                Error::Protocol(
                    ProtocolError::RequiredEncryptionModeUnavailable {
                        required_mode,
                        modes: self.copy_modes(),
                    },
                ),
            );
        }
        if self.offers_mode(EncryptionMode::AeadAes256GcmRtpSize) {
            return Ok(EncryptionMode::AeadAes256GcmRtpSize);
        }
        if self.offers_mode(EncryptionMode::AeadXChaCha20Poly1305RtpSize) {
            return Ok(EncryptionMode::AeadXChaCha20Poly1305RtpSize);
        }
        Err(
            Error::Protocol(
                ProtocolError::ReadyMissingSupportedEncryptionMode { modes: self.copy_modes() },
            ),
        )
    }

    fn copy_modes(&self) -> (copy: Vec<OfferedEncryptionMode>)
        ensures
            copy@ == self.modes@,
    {
        let mut copy: Vec<OfferedEncryptionMode> = Vec::new();
        let len = self.modes.len();
        let mut i: usize = 0;
        while i < len
            invariant
                len == self.modes@.len(),
                i <= len,
                copy@ == self.modes@.take(i as int),
            decreases len - i,
        {
            copy.push(self.modes[i].clone());
            i = i + 1;
            assert(copy@ =~= self.modes@.take(i as int));
        }
        assert(copy@ =~= self.modes@);
        copy
    }

    fn offers_mode(&self, mode: EncryptionMode) -> (answer: bool)
        ensures
            answer == offered(self.modes@, mode),
    {
        let len = self.modes.len();
        let mut i: usize = 0;
        while i < len
            invariant
                len == self.modes@.len(),
                i <= len,
                forall|j: int|
                    0 <= j < i ==> EncryptionMode::named((#[trigger] self.modes@[j])@) != Some(mode),
            decreases len - i,
        {
            if self.modes[i].supported() == Some(mode) {
                return true;
            }
            i = i + 1;
        }
        false
    }

    /// The stream that video is sent on.
    pub fn primary_video_stream(&self) -> (stream: Option<GatewayReadyVideoStream>)
        ensures
            stream == (match video_stream(self.streams@) {
                Some(i) => Some(
                    GatewayReadyVideoStream {
                        ssrc: self.streams@[i].ssrc,
                        rtx_ssrc: self.streams@[i].rtx_ssrc,
                    },
                ),
                None => None,
            }),
    {
        let len = self.streams.len();
        let mut best: Option<usize> = None;
        let mut best_score: u32 = 0;
        let mut i: usize = 0;
        while i < len
            invariant
                len == self.streams@.len(),
                i <= len,
                match best {
                    Some(b) => b < i && preferred_stream(self.streams@.take(i as int)) == Some(
                        b as int,
                    ) && best_score == self.streams@[b as int].rank(),
                    None => preferred_stream(self.streams@.take(i as int)) is None,
                },
            decreases len - i,
        {
            assert(self.streams@.take(i + 1).drop_last() =~= self.streams@.take(i as int));
            if self.streams[i].is_active_video() {
                let score: u32 = self.streams[i].score();
                if best.is_none() || score >= best_score {
                    best = Some(i);
                    best_score = score;
                }
            }
            i = i + 1;
        }
        assert(self.streams@.take(i as int) =~= self.streams@);
        let chosen: usize = match best {
            Some(index) => index,
            None => {
                if len == 1 && self.streams[0].active != Some(false) {
                    0
                } else {
                    return None;
                }
            },
        };
        Some(
            GatewayReadyVideoStream {
                ssrc: self.streams[chosen].ssrc,
                rtx_ssrc: self.streams[chosen].rtx_ssrc,
            },
        )
    }
}

/// The stream that is preferred is an active video stream, and no active video stream is
/// preferred to it; there is one where any stream is active video.
pub proof fn law_preferred_stream_is_best(streams: Seq<GatewayReadyStream>)
    ensures
        match preferred_stream(streams) {
            Some(i) => {
                &&& 0 <= i < streams.len()
                &&& streams[i].active_video()
                &&& forall|j: int|
                    0 <= j < streams.len() && (#[trigger] streams[j]).active_video() ==> {
                        streams[j].rank() <= streams[i].rank() && (streams[j].rank()
                            == streams[i].rank() ==> j <= i)
                    }
            },
            None => forall|j: int|
                0 <= j < streams.len() ==> !(#[trigger] streams[j]).active_video(),
        },
    decreases streams.len(),
{
    if streams.len() > 0 {
        let before = streams.drop_last();
        law_preferred_stream_is_best(before);
        assert forall|j: int| 0 <= j < before.len() implies #[trigger] streams[j] == before[j] by {}
    }
}

/// Which of two streams is preferred: the one that was asked for; of two such, or of two
/// others, the one of full quality; and else the one of the better quality.
pub proof fn law_streams_are_ranked(a: GatewayReadyStream, b: GatewayReadyStream)
    ensures
        ({
            let asked = |stream: GatewayReadyStream|
                stream.rid matches Some(rid) && rid@ == "100"@;
            let quality = |stream: GatewayReadyStream|
                match stream.quality {
                    Some(quality) => quality as int,
                    None => 0int,
                };
            &&& asked(a) && !asked(b) ==> a.rank() > b.rank()
            &&& asked(a) == asked(b) && quality(a) == 100 && quality(b) != 100 ==> a.rank()
                > b.rank()
            &&& asked(a) == asked(b) && quality(a) != 100 && quality(b) != 100 ==> (a.rank()
                > b.rank() <==> quality(a) > quality(b))
            &&& asked(a) == asked(b) && quality(a) == quality(b) ==> a.rank() == b.rank()
        }),
{
}

/// The mode that is chosen was offered, by its name; it is the required one where one is
/// required, and else AES where that is offered. There is none only where none that would
/// do was offered.
pub proof fn law_chosen_modes_were_offered(
    ready: GatewayReady,
    required: Option<EncryptionMode>,
    i: int,
)
    requires
        0 <= i < ready.modes@.len(),
    ensures
        ready.chosen_mode(required) matches Some(mode) ==> {
            &&& offered(ready.modes@, mode)
            &&& required matches Some(wanted) ==> mode == wanted
        },
        EncryptionMode::named(ready.modes@[i]@) matches Some(mode) && (required is None
            || required == Some(mode)) ==> ready.chosen_mode(required) is Some,
        EncryptionMode::named(ready.modes@[i]@) == Some(EncryptionMode::AeadAes256GcmRtpSize)
            && required is None ==> ready.chosen_mode(required) == Some(
            EncryptionMode::AeadAes256GcmRtpSize,
        ),
{
}

/// Video is sent on an active video stream where there is one; where there is none, on the
/// only stream there is, unless that is inactive; and else on none.
pub proof fn law_video_goes_on_a_live_stream(streams: Seq<GatewayReadyStream>)
    ensures
        video_stream(streams) matches Some(i) ==> 0 <= i < streams.len() && streams[i].active
            != Some(false) && (streams.len() > 1 ==> streams[i].active_video()),
        video_stream(streams) is None ==> forall|i: int|
            0 <= i < streams.len() ==> !(#[trigger] streams[i]).active_video(),
        video_stream(streams) is None && streams.len() == 1 ==> streams[0].active == Some(false),
{
    law_preferred_stream_is_best(streams);
}

} // verus!
