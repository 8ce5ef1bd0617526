//! Opus packets: how long they last.

use super::config::{block_duration, MAX_PACKET_BYTES, SAMPLES_PER_CHANNEL};
use crate::codec::Codec;
use crate::errors::{Error, InvalidInputError, OpusError, PayloadKind};
use crate::time::Duration;
use vstd::prelude::*;

verus! {

/// The most bytes that one frame of a packet has.
pub const OPUS_MAX_FRAME_BYTES: usize = 1_275;

/// How many samples 120 ms are.
pub const OPUS_MAX_PACKET_SAMPLES_PER_CHANNEL: usize = 5_760;

/// How many samples a frame has, by the first byte of its packet: 2.5, 5, 10 or 20 ms where
/// it is all CELT; 10 or 20 ms where it is half SILK; 10, 20, 40 or 60 ms where it is all
/// SILK.
pub open spec fn samples_per_frame(toc: u8) -> int {
    let length = (toc as int / 8) % 4;
    if toc >= 128 {
        if length == 0 {
            120
        } else if length == 1 {
            240
        } else if length == 2 {
            480
        } else {
            960
        }
    } else if toc >= 96 {
        if length % 2 == 1 {
            960
        } else {
            480
        }
    } else {
        if length == 0 {
            480
        } else if length == 1 {
            960
        } else if length == 2 {
            1_920
        } else {
            2_880
        }
    }
}

fn opus_samples_per_frame(toc: u8) -> (samples: usize)
    ensures
        samples == samples_per_frame(toc),
{
    let length: u8 = (toc / 8) % 4;
    if toc >= 128 {
        if length == 0 {
            120
        } else if length == 1 {
            240
        } else if length == 2 {
            480
        } else {
            960
        }
    } else if toc >= 96 {
        if length % 2 == 1 {
            960
        } else {
            480
        }
    } else if length == 0 {
        480
    } else if length == 1 {
        960
    } else if length == 2 {
        1_920
    } else {
        2_880
    }
}

/// Why a frame of that length is refused, if it is.
pub open spec fn frame_len_fault(len: int) -> Option<&'static str> {
    if len > OPUS_MAX_FRAME_BYTES {
        Some("frame exceeds Opus maximum encoded size")
    } else {
        None
    }
}

/// The length of a frame as it is written, and how many bytes it is written in.
pub open spec fn frame_len_written(data: Seq<u8>) -> Result<(int, int), &'static str> {
    if data.len() == 0 {
        Err("missing frame size")
    } else if data[0] < 252 {
        Ok((data[0] as int, 1))
    } else if data.len() == 1 {
        Err("truncated extended frame size")
    } else {
        Ok((data[1] * 4 + data[0], 2))
    }
}

/// The length of the padding as it is written, and how many bytes it is written in: 254 for
/// every byte of 255, and then the byte that is less.
pub open spec fn padding_written(data: Seq<u8>) -> Result<(int, int), &'static str>
    decreases data.len(),
{
    if data.len() == 0 {
        Err("unterminated padding length")
    } else if data[0] != 255 {
        Ok((data[0] as int, 1))
    } else {
        match padding_written(data.skip(1)) {
            Ok((padding, used)) => Ok((padding + 254, used + 1)),
            Err(reason) => Err(reason),
        }
    }
}

/// Why frames of lengths of their own are refused, if they are: the lengths of all but the
/// last come first, after `sized` bytes that are already spoken for.
pub open spec fn own_lengths_fault(data: Seq<u8>, frames: int, sized: int) -> Option<&'static str>
    decreases frames,
{
    if frames <= 1 {
        if sized > data.len() {
            Some("VBR frame sizes exceed packet length")
        } else {
            frame_len_fault(data.len() - sized)
        }
    } else {
        match frame_len_written(data) {
            Err(reason) => Some(reason),
            Ok((len, used)) => match frame_len_fault(len) {
                Some(reason) => Some(reason),
                None => own_lengths_fault(data.skip(used), frames - 1, sized + len),
            },
        }
    }
}

/// Why the frames of a packet that says how many it has are refused, if they are.
pub open spec fn frames_fault(data: Seq<u8>, frames: int, own_lengths: bool) -> Option<
    &'static str,
> {
    if own_lengths {
        own_lengths_fault(data, frames, 0)
    } else if data.len() as int % frames != 0 {
        Some("code 3 CBR payload is not frame-aligned")
    } else {
        frame_len_fault(data.len() as int / frames)
    }
}

/// How many frames a packet has that says how many, by what follows its first byte.
pub open spec fn counted_frames(payload: Seq<u8>, samples: int) -> Result<int, &'static str> {
    if payload.len() == 0 {
        Err("code 3 packet missing frame count")
    } else {
        let frames = payload[0] as int % 64;
        let padded = payload[0] as int / 64 % 2 == 1;
        let own_lengths = payload[0] >= 128;
        let rest = payload.skip(1);
        if frames == 0 || frames > 48 {
            Err("code 3 packet has invalid frame count")
        } else if samples * frames > OPUS_MAX_PACKET_SAMPLES_PER_CHANNEL {
            Err("code 3 packet duration exceeds 120 ms")
        } else if padded {
            match padding_written(rest) {
                Err(reason) => Err(reason),
                Ok((padding, used)) => if rest.len() - used < padding {
                    Err("code 3 padding exceeds packet length")
                } else {
                    match frames_fault(
                        rest.subrange(used, rest.len() - padding),
                        frames,
                        own_lengths,
                    ) {
                        Some(reason) => Err(reason),
                        None => Ok(frames),
                    }
                },
            }
        } else {
            match frames_fault(rest, frames, own_lengths) {
                Some(reason) => Err(reason),
                None => Ok(frames),
            }
        }
    }
}

/// How many frames a packet has: one; two of one length; two of lengths of their own; or as
/// many as it says.
pub open spec fn frames_in(packet: Seq<u8>) -> Result<int, &'static str> {
    let payload = packet.skip(1);
    let code = packet[0] as int % 4;
    if code == 0 {
        match frame_len_fault(payload.len() as int) {
            Some(reason) => Err(reason),
            None => Ok(1),
        }
    } else if code == 1 {
        if payload.len() as int % 2 != 0 {
            Err("code 1 packet has odd payload length")
        } else {
            match frame_len_fault(payload.len() as int / 2) {
                Some(reason) => Err(reason),
                None => Ok(2),
            }
        }
    } else if code == 2 {
        match frame_len_written(payload) {
            Err(reason) => Err(reason),
            Ok((first, used)) => {
                let remaining = payload.len() - used;
                if first > remaining {
                    Err("code 2 first frame exceeds packet length")
                } else if frame_len_fault(first) is Some {
                    Err(frame_len_fault(first)->0)
                } else if frame_len_fault(remaining - first) is Some {
                    Err(frame_len_fault(remaining - first)->0)
                } else {
                    Ok(2)
                }
            },
        }
    } else {
        counted_frames(payload, samples_per_frame(packet[0]))
    }
}

/// How many samples a packet has in each channel.
pub open spec fn samples_in_packet(packet: Seq<u8>) -> Result<int, &'static str> {
    match frames_in(packet) {
        Err(reason) => Err(reason),
        Ok(frames) => if samples_per_frame(packet[0]) * frames
            > OPUS_MAX_PACKET_SAMPLES_PER_CHANNEL {
            Err("packet duration exceeds 120 ms")
        } else {
            Ok(samples_per_frame(packet[0]) * frames)
        },
    }
}

/// Why bytes are no packet that Discord takes, if they are not: one Opus packet of 20 ms.
pub open spec fn packet_refusal(bytes: Seq<u8>) -> Option<Error> {
    if bytes.len() == 0 {
        Some(Error::InvalidInput(InvalidInputError::EmptyPayload { codec: Codec::Opus }))
    } else if bytes.len() > MAX_PACKET_BYTES {
        Some(
            Error::PayloadTooLarge {
                kind: PayloadKind::Frame,
                len: bytes.len() as usize,
                max_len: MAX_PACKET_BYTES,
            },
        )
    } else {
        match samples_in_packet(bytes) {
            Err(reason) => Some(Error::Opus(OpusError::InvalidPacket { reason })),
            Ok(samples) => if samples != SAMPLES_PER_CHANNEL {
                Some(
                    Error::Opus(
                        OpusError::UnsupportedDiscordPacketDuration {
                            expected_samples_per_channel: SAMPLES_PER_CHANNEL,
                            actual_samples_per_channel: samples as usize,
                        },
                    ),
                )
            } else {
                None
            },
        }
    }
}

fn validate_opus_frame_size(len: usize) -> (fault: Option<&'static str>)
    ensures
        fault == frame_len_fault(len as int),
{
    if len > OPUS_MAX_FRAME_BYTES {
        Some("frame exceeds Opus maximum encoded size")
    } else {
        None
    }
}

fn parse_opus_frame_size(data: &[u8], from: usize, to: usize) -> (parsed: Result<
    (usize, usize),
    &'static str,
>)
    requires
        from <= to <= data@.len(),
    ensures
        match frame_len_written(data@.subrange(from as int, to as int)) {
            Ok((len, used)) => parsed == Ok::<(usize, usize), &'static str>(
                (len as usize, used as usize),
            ) && len <= 1_275 && used <= to - from,
            Err(reason) => parsed == Err::<(usize, usize), &'static str>(reason),
        },
{
    if from >= to {
        return Err("missing frame size");
    }
    let first: u8 = data[from];
    if first < 252 {
        return Ok((first as usize, 1));
    }
    if to - from == 1 {
        return Err("truncated extended frame size");
    }
    let second: u8 = data[from + 1];
    Ok((second as usize * 4 + first as usize, 2))
}

fn parse_opus_padding_len(data: &[u8], from: usize) -> (parsed: Result<
    (usize, usize),
    &'static str,
>)
    requires
        from <= data@.len() <= MAX_PACKET_BYTES,
    ensures
        match padding_written(data@.skip(from as int)) {
            Ok((padding, used)) => parsed == Ok::<(usize, usize), &'static str>(
                (padding as usize, used as usize),
            ) && 0 <= padding <= 255 * used && 0 < used <= data@.len() - from,
            Err(reason) => parsed == Err::<(usize, usize), &'static str>(reason),
        },
{
    let len = data.len();
    let ghost whole = padding_written(data@.skip(from as int));
    let mut padding: usize = 0;
    let mut used: usize = 0;
    while from + used < len
        invariant
            len == data@.len() <= MAX_PACKET_BYTES,
            from + used <= len,
            padding == 254 * used,
            whole == (match padding_written(data@.skip(from + used)) {
                Ok((rest, more)) => Ok::<(int, int), &'static str>((rest + padding, more + used)),
                Err(reason) => Err::<(int, int), &'static str>(reason),
            }),
            whole == padding_written(data@.skip(from as int)),
        decreases len - from - used,
    {
        let byte: u8 = data[from + used];
        assert(data@.skip(from + used)[0] == byte);
        assert(data@.skip(from + used).skip(1) =~= data@.skip(from + used + 1));
        used = used + 1;
        if byte != 255 {
            return Ok((padding + byte as usize, used));
        }
        padding = padding + 254;
    }
    Err("unterminated padding length")
}

fn validate_opus_vbr_frame_sizes(data: &[u8], from: usize, to: usize, frames: usize) -> (fault:
    Option<&'static str>)
    requires
        from <= to <= data@.len() <= MAX_PACKET_BYTES,
        1 <= frames <= 48,
    ensures
        fault == own_lengths_fault(data@.subrange(from as int, to as int), frames as int, 0),
{
    let ghost whole = own_lengths_fault(data@.subrange(from as int, to as int), frames as int, 0);
    let mut at: usize = from;
    let mut sized: usize = 0;
    let mut left: usize = frames;
    while left > 1
        invariant
            at <= to <= data@.len() <= MAX_PACKET_BYTES,
            1 <= left <= frames <= 48,
            sized <= 1_275 * (frames - left),
            whole == own_lengths_fault(data@.subrange(from as int, to as int), frames as int, 0),
            whole == own_lengths_fault(
                data@.subrange(at as int, to as int),
                left as int,
                sized as int,
            ),
        decreases left,
    {
        match parse_opus_frame_size(data, at, to) {
            Ok((len, used)) => {
                if let Some(reason) = validate_opus_frame_size(len) {
                    return Some(reason);
                }
                assert(data@.subrange(at as int, to as int).skip(used as int) =~= data@.subrange(
                    at + used,
                    to as int,
                ));
                at = at + used;
                sized = sized + len;
            },
            Err(reason) => {
                return Some(reason);
            },
        }
        left = left - 1;
    }
    let remaining: usize = to - at;
    if sized > remaining {
        return Some("VBR frame sizes exceed packet length");
    }
    validate_opus_frame_size(remaining - sized)
}

fn validate_opus_frames(
    data: &[u8],
    from: usize,
    to: usize,
    frames: usize,
    own_lengths: bool,
) -> (fault: Option<&'static str>)
    requires
        from <= to <= data@.len() <= MAX_PACKET_BYTES,
        1 <= frames <= 48,
    ensures
        fault == frames_fault(data@.subrange(from as int, to as int), frames as int, own_lengths),
{
    if own_lengths {
        return validate_opus_vbr_frame_sizes(data, from, to, frames);
    }
    let len: usize = to - from;
    if len % frames != 0 {
        return Some("code 3 CBR payload is not frame-aligned");
    }
    validate_opus_frame_size(len / frames)
}

fn opus_code3_frame_count(packet: &[u8], samples: usize) -> (frames: Result<usize, &'static str>)
    requires
        0 < packet@.len() <= MAX_PACKET_BYTES,
        samples <= 2_880,
    ensures
        match counted_frames(packet@.skip(1), samples as int) {
            Ok(count) => frames == Ok::<usize, &'static str>(count as usize) && 1 <= count <= 48,
            Err(reason) => frames == Err::<usize, &'static str>(reason),
        },
{
    let len = packet.len();
    if len == 1 {
        return Err("code 3 packet missing frame count");
    }
    let count_byte: u8 = packet[1];
    let ghost payload = packet@.skip(1);
    let ghost rest = payload.skip(1);
    assert(payload[0] == count_byte);
    assert(rest =~= packet@.skip(2));
    let frames: usize = (count_byte % 64) as usize;
    if frames == 0 || frames > 48 {
        return Err("code 3 packet has invalid frame count");
    }
    assert(samples * frames <= 2_880 * 48) by (nonlinear_arith)
        requires
            samples <= 2_880,
            frames <= 48,
    ;
    if samples * frames > OPUS_MAX_PACKET_SAMPLES_PER_CHANNEL {
        return Err("code 3 packet duration exceeds 120 ms");
    }
    let own_lengths = count_byte >= 128;
    let mut from: usize = 2;
    let mut to: usize = len;
    if count_byte / 64 % 2 == 1 {
        match parse_opus_padding_len(packet, 2) {
            Ok((padding, used)) => {
                from = 2 + used;
                if len - from < padding {
                    return Err("code 3 padding exceeds packet length");
                }
                to = len - padding;
                assert(packet@.subrange(from as int, to as int) =~= rest.subrange(
                    used as int,
                    rest.len() - padding,
                ));
            },
            Err(reason) => {
                return Err(reason);
            },
        }
    } else {
        assert(packet@.subrange(from as int, to as int) =~= rest);
    }
    match validate_opus_frames(packet, from, to, frames, own_lengths) {
        Some(reason) => Err(reason),
        None => Ok(frames),
    }
}

fn opus_packet_frame_count(packet: &[u8], samples: usize) -> (frames: Result<usize, &'static str>)
    requires
        0 < packet@.len() <= MAX_PACKET_BYTES,
        samples == samples_per_frame(packet@[0]),
    ensures
        match frames_in(packet@) {
            Ok(count) => frames == Ok::<usize, &'static str>(count as usize) && 1 <= count <= 48,
            Err(reason) => frames == Err::<usize, &'static str>(reason),
        },
{
    let len = packet.len();
    let payload_len: usize = len - 1;
    let code: u8 = packet[0] % 4;
    if code == 0 {
        return match validate_opus_frame_size(payload_len) {
            Some(reason) => Err(reason),
            None => Ok(1),
        };
    }
    if code == 1 {
        if payload_len % 2 != 0 {
            return Err("code 1 packet has odd payload length");
        }
        return match validate_opus_frame_size(payload_len / 2) {
            Some(reason) => Err(reason),
            None => Ok(2),
        };
    }
    if code == 2 {
        assert(packet@.subrange(1, len as int) =~= packet@.skip(1));
        let (first, used) = match parse_opus_frame_size(packet, 1, len) {
            Ok(parsed) => parsed,
            Err(reason) => {
                return Err(reason);
            },
        };
        let remaining: usize = payload_len - used;
        if first > remaining {
            return Err("code 2 first frame exceeds packet length");
        }
        if let Some(reason) = validate_opus_frame_size(first) {
            return Err(reason);
        }
        if let Some(reason) = validate_opus_frame_size(remaining - first) {
            return Err(reason);
        }
        return Ok(2);
    }
    opus_code3_frame_count(packet, samples)
}

fn opus_packet_samples_per_channel(packet: &[u8]) -> (samples: Result<usize, &'static str>)
    requires
        0 < packet@.len() <= MAX_PACKET_BYTES,
    ensures
        match samples_in_packet(packet@) {
            Ok(count) => samples == Ok::<usize, &'static str>(count as usize),
            Err(reason) => samples == Err::<usize, &'static str>(reason),
        },
{
    let per_frame = opus_samples_per_frame(packet[0]);
    let frames = match opus_packet_frame_count(packet, per_frame) {
        Ok(frames) => frames,
        Err(reason) => {
            return Err(reason);
        },
    };
    assert(per_frame * frames <= 2_880 * 48) by (nonlinear_arith)
        requires
            per_frame <= 2_880,
            frames <= 48,
    ;
    let samples: usize = per_frame * frames;
    if samples > OPUS_MAX_PACKET_SAMPLES_PER_CHANNEL {
        return Err("packet duration exceeds 120 ms");
    }
    Ok(samples)
}

/// Whether bytes are one packet that Discord takes.
pub fn validate_packet_bytes(bytes: &[u8]) -> (result: Result<(), Error>)
    ensures
        result == (match packet_refusal(bytes@) {
            Some(error) => Err::<(), Error>(error),
            None => Ok::<(), Error>(()),
        }),
{
    let len = bytes.len();
    if len == 0 {
        return Err(Error::InvalidInput(InvalidInputError::EmptyPayload { codec: Codec::Opus }));
    }
    if len > MAX_PACKET_BYTES {
        return Err(
            Error::PayloadTooLarge { kind: PayloadKind::Frame, len, max_len: MAX_PACKET_BYTES },
        );
    }
    match opus_packet_samples_per_channel(bytes) {
        Err(reason) => Err(Error::Opus(OpusError::InvalidPacket { reason })),
        Ok(samples) => if samples != SAMPLES_PER_CHANNEL {
            Err(
                Error::Opus(
                    OpusError::UnsupportedDiscordPacketDuration {
                        expected_samples_per_channel: SAMPLES_PER_CHANNEL,
                        actual_samples_per_channel: samples,
                    },
                ),
            )
        } else {
            Ok(())
        },
    }
}

/// An Opus packet of 20 ms.
#[derive(Clone, Debug, PartialEq, Eq)]
pub struct Packet {
    bytes: Vec<u8>,
}

impl View for Packet {
    type V = Seq<u8>;

    closed spec fn view(&self) -> Seq<u8> {
        self.bytes@
    }
}

impl Packet {
    pub fn from_bytes(bytes: Vec<u8>) -> (packet: Result<Self, Error>)
        ensures
            match packet_refusal(bytes@) {
                Some(error) => packet == Err::<Self, Error>(error),
                None => packet matches Ok(packet) && packet@ == bytes@,
            },
    {
        match validate_packet_bytes(bytes.as_slice()) {
            Ok(()) => Ok(Packet { bytes }),
            Err(error) => Err(error),
        }
    }

    /// A packet as an encoder made it.
    pub fn from_encoder_bytes(bytes: Vec<u8>) -> (packet: Self)
        ensures
            packet@ == bytes@,
    {
        Packet { bytes }
    }

    pub fn bytes(&self) -> (bytes: &[u8])
        ensures
            bytes@ == self@,
    {
        self.bytes.as_slice()
    }

    pub fn duration(&self) -> (duration: Duration)
        ensures
            duration.nanos == 20_000_000,
    {
        block_duration()
    }

    pub fn into_bytes(self) -> (bytes: Vec<u8>)
        ensures
            bytes@ == self@,
    {
        self.bytes
    }
}

/// Every packet of a length in between is found: a packet that is taken lasts 20 ms, has at
/// least one frame, and no frame of it is longer than Opus allows.
pub proof fn law_taken_packets_last_20_ms(bytes: Seq<u8>)
    requires
        packet_refusal(bytes) is None,
    ensures
        0 < bytes.len() <= MAX_PACKET_BYTES,
        frames_in(bytes) matches Ok(frames) && frames > 0 && samples_per_frame(bytes[0]) * frames
            == SAMPLES_PER_CHANNEL,
{
    let frames = frames_in(bytes)->Ok_0;
    if frames <= 0 {
        assert(samples_per_frame(bytes[0]) * frames <= 0) by (nonlinear_arith)
            requires
                frames <= 0,
                samples_per_frame(bytes[0]) > 0,
        ;
    }
}

} // verus!
