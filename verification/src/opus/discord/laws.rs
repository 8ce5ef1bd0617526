//! What holds of Opus packets, frame by frame.

use super::config::MAX_PACKET_BYTES;
use super::packet::{
    frame_len_fault, frame_len_written, frames_in, own_lengths_fault, packet_refusal,
    padding_written, samples_in_packet, samples_per_frame,
};
use vstd::prelude::*;

verus! {

/// How long a frame lasts, in microseconds, by the number of its configuration, which is
/// the top five bits of a packet's first byte. Configurations 0 to 11 are speech: 10, 20, 40
/// and 60 ms in turn. 12 to 15 are hybrid: 10 and 20 ms in turn. 16 to 31 are music: 2.5, 5,
/// 10 and 20 ms in turn.
pub open spec fn frame_micros(configuration: int) -> int {
    let turn = configuration % 4;
    if configuration < 12 {
        if turn == 3 {
            60_000
        } else if turn == 2 {
            40_000
        } else if turn == 1 {
            20_000
        } else {
            10_000
        }
    } else if configuration < 16 {
        if turn == 0 || turn == 2 {
            10_000
        } else {
            20_000
        }
    } else {
        2_500 * vstd::arithmetic::power2::pow2(turn as nat) as int
    }
}

/// A frame has as many samples as its time holds at 48 kHz.
#[verifier::rlimit(60)]
#[verifier::spinoff_prover]
pub proof fn law_frames_last_by_configuration(toc: u8)
    ensures
        samples_per_frame(toc) * 1_000_000 == frame_micros(toc as int / 8) * 48_000,
        samples_per_frame(toc) == samples_per_frame((toc - toc % 8) as u8),
{
    vstd::arithmetic::power2::lemma2_to64();
}

/// A packet of one frame is taken for the configurations whose frames last 20 ms, and for no
/// others, as long as the frame is not too long.
#[verifier::rlimit(60)]
#[verifier::spinoff_prover]
pub proof fn law_single_frames_of_20_ms_are_taken(packet: Seq<u8>)
    requires
        0 < packet.len() <= MAX_PACKET_BYTES,
        packet[0] % 4 == 0,
    ensures
        packet_refusal(packet) is None <==> packet.len() <= 1_276 && ({
            let configuration = packet[0] / 8;
            ||| configuration == 1 || configuration == 5 || configuration == 9
            ||| configuration == 13 || configuration == 15
            ||| configuration == 19 || configuration == 23 || configuration == 27
                || configuration == 31
        }),
{
}

/// A packet of two frames of one length is taken exactly where each lasts 10 ms, its bytes
/// are even in number, and neither frame is too long.
#[verifier::rlimit(60)]
#[verifier::spinoff_prover]
pub proof fn law_pairs_of_10_ms_are_taken(packet: Seq<u8>)
    requires
        0 < packet.len() <= MAX_PACKET_BYTES,
        packet[0] % 4 == 1,
    ensures
        packet_refusal(packet) is None <==> (packet.len() - 1) % 2 == 0 && packet.len() <= 2_551
            && frame_micros(packet[0] as int / 8) == 10_000,
{
    vstd::arithmetic::power2::lemma2_to64();
}

/// The length of a frame as an encoder writes it: in one byte, or in two of which the second
/// counts four times.
pub open spec fn len_bytes(len: int) -> Seq<u8> {
    if len < 252 {
        seq![len as u8]
    } else {
        seq![(252 + len % 4) as u8, ((len - 252) / 4) as u8]
    }
}

proof fn lemma_len_is_read(len: int, rest: Seq<u8>)
    requires
        0 <= len <= 1_275,
    ensures
        frame_len_written(len_bytes(len) + rest) == Ok::<(int, int), &'static str>(
            (len, len_bytes(len).len() as int),
        ),
        (len_bytes(len) + rest).skip(len_bytes(len).len() as int) == rest,
{
    let data = len_bytes(len) + rest;
    assert(data.skip(len_bytes(len).len() as int) =~= rest);
    if len >= 252 {
        assert(data[0] == 252 + len % 4);
        assert(data[1] == (len - 252) / 4);
    }
}

/// A packet of two frames, the first of which is written behind its length, is taken exactly
/// where each lasts 10 ms and neither is too long.
#[verifier::rlimit(60)]
#[verifier::spinoff_prover]
pub proof fn law_unequal_pairs_of_10_ms_are_taken(toc: u8, first: Seq<u8>, second: Seq<u8>)
    requires
        toc % 4 == 2,
        first.len() <= 1_275,
        first.len() + second.len() + 3 <= MAX_PACKET_BYTES,
    ensures
        packet_refusal(seq![toc] + len_bytes(first.len() as int) + first + second) is None
            <==> second.len() <= 1_275 && frame_micros(toc as int / 8) == 10_000,
{
    vstd::arithmetic::power2::lemma2_to64();
    let packet = seq![toc] + len_bytes(first.len() as int) + first + second;
    lemma_len_is_read(first.len() as int, first + second);
    assert(packet.skip(1) =~= len_bytes(first.len() as int) + (first + second));
    assert(packet[0] == toc);
    assert(frames_in(packet) == (if second.len() <= 1_275 {
        Ok::<int, &'static str>(2)
    } else {
        Err::<int, &'static str>(frame_len_fault(second.len() as int)->0)
    }));
    assert(samples_in_packet(packet) is Ok ==> samples_in_packet(packet)->Ok_0
        == 2 * samples_per_frame(toc));
    law_frames_last_by_configuration(toc);
}

/// Frames one after the other.
pub open spec fn joined(frames: Seq<Seq<u8>>) -> Seq<u8>
    decreases frames.len(),
{
    if frames.len() == 0 {
        seq![]
    } else {
        frames[0] + joined(frames.drop_first())
    }
}

/// The lengths of all frames but the last, one after the other.
pub open spec fn lens_bytes(frames: Seq<Seq<u8>>) -> Seq<u8>
    decreases frames.len(),
{
    if frames.len() <= 1 {
        seq![]
    } else {
        len_bytes(frames[0].len() as int) + lens_bytes(frames.drop_first())
    }
}

/// So many bytes of padding, as their number is written: each byte of 255 stands for 254,
/// and another byte follows it.
pub open spec fn padding_bytes(padding: int) -> Seq<u8>
    decreases padding,
{
    if padding < 255 {
        seq![padding as u8]
    } else {
        seq![255u8] + padding_bytes(padding - 254)
    }
}

proof fn lemma_padding_is_read(padding: int, rest: Seq<u8>)
    requires
        0 <= padding,
    ensures
        padding_written(padding_bytes(padding) + rest) == Ok::<(int, int), &'static str>(
            (padding, padding_bytes(padding).len() as int),
        ),
    decreases padding,
{
    let data = padding_bytes(padding) + rest;
    if padding >= 255 {
        lemma_padding_is_read(padding - 254, rest);
        assert(data.skip(1) =~= padding_bytes(padding - 254) + rest);
        assert(data[0] == 255);
    } else {
        assert(data[0] == padding);
    }
}

proof fn lemma_lens_are_read(frames: Seq<Seq<u8>>, sized: int, data: Seq<u8>)
    requires
        frames.len() > 0,
        forall|i: int| 0 <= i < frames.len() - 1 ==> (#[trigger] frames[i]).len() <= 1_275,
        0 <= sized,
        data.len() == sized + joined(frames).len(),
    ensures
        own_lengths_fault(lens_bytes(frames) + data, frames.len() as int, sized) is None
            <==> frames.last().len() <= 1_275,
    decreases frames.len(),
{
    if frames.len() == 1 {
        assert(lens_bytes(frames) + data =~= data);
        assert(joined(frames.drop_first()).len() == 0);
        assert(joined(frames).len() == frames[0].len());
    } else {
        let len = frames[0].len() as int;
        let rest = frames.drop_first();
        lemma_len_is_read(len, lens_bytes(rest) + data);
        assert(lens_bytes(frames) + data =~= len_bytes(len) + (lens_bytes(rest) + data));
        assert forall|i: int| 0 <= i < rest.len() - 1 implies (#[trigger] rest[i]).len()
            <= 1_275 by {
            assert(rest[i] == frames[i + 1]);
        }
        lemma_lens_are_read(rest, sized + len, data);
        assert(rest.last() == frames.last());
    }
}

/// A packet that says how many frames it has, with frames of lengths of their own and with
/// padding behind them, as an encoder writes it.
pub open spec fn own_lengths_packet(toc: u8, frames: Seq<Seq<u8>>, padding: Option<Seq<u8>>) ->
    Seq<u8> {
    match padding {
        Some(filler) => seq![toc, (128 + 64 + frames.len()) as u8] + padding_bytes(
            filler.len() as int,
        ) + lens_bytes(frames) + joined(frames) + filler,
        None => seq![toc, (128 + frames.len()) as u8] + lens_bytes(frames) + joined(frames),
    }
}

/// A packet of up to 48 frames of lengths of their own, padded or not, is taken exactly
/// where its frames last 20 ms together and none is too long.
#[verifier::rlimit(60)]
#[verifier::spinoff_prover]
pub proof fn law_frames_of_20_ms_together_are_taken(
    toc: u8,
    frames: Seq<Seq<u8>>,
    padding: Option<Seq<u8>>,
)
    requires
        toc % 4 == 3,
        0 < frames.len() <= 48,
        forall|i: int| 0 <= i < frames.len() - 1 ==> (#[trigger] frames[i]).len() <= 1_275,
        own_lengths_packet(toc, frames, padding).len() <= MAX_PACKET_BYTES,
    ensures
        packet_refusal(own_lengths_packet(toc, frames, padding)) is None
            <==> frames.last().len() <= 1_275 && frame_micros(toc as int / 8) * frames.len()
            == 20_000,
{
    vstd::arithmetic::power2::lemma2_to64();
    let packet = own_lengths_packet(toc, frames, padding);
    let payload = packet.skip(1);
    let rest = payload.skip(1);
    let body = lens_bytes(frames) + joined(frames);
    let count = frames.len() as int;
    assert(packet[0] == toc);
    lemma_lens_are_read(frames, 0, joined(frames));
    match padding {
        Some(filler) => {
            assert(payload[0] == 192 + count);
            let written = padding_bytes(filler.len() as int);
            assert(rest =~= written + (body + filler));
            lemma_padding_is_read(filler.len() as int, body + filler);
            assert(rest.subrange(written.len() as int, rest.len() - filler.len()) =~= body);
        },
        None => {
            assert(payload[0] == 128 + count);
            assert(rest =~= body);
        },
    }
    let samples = samples_per_frame(toc);
    law_frames_last_by_configuration(toc);
    lemma_samples_and_time(samples, frame_micros(toc as int / 8), count);
}

proof fn lemma_samples_and_time(samples: int, micros: int, count: int)
    requires
        samples * 1_000_000 == micros * 48_000,
    ensures
        samples * count == 960 <==> micros * count == 20_000,
{
    assert(125 * samples == 6 * micros);
    assert(125 * (samples * count) == 6 * (micros * count)) by (nonlinear_arith)
        requires
            125 * samples == 6 * micros,
    ;
}

/// A packet that says how many frames of one length it has, padded or not, is taken exactly
/// where its frames last 20 ms together, share its bytes evenly, and are not too long.
#[verifier::rlimit(60)]
#[verifier::spinoff_prover]
pub proof fn law_equal_frames_of_20_ms_are_taken(
    toc: u8,
    count: int,
    body: Seq<u8>,
    padding: Option<Seq<u8>>,
)
    requires
        toc % 4 == 3,
        0 < count <= 48,
        body.len() <= MAX_PACKET_BYTES - 2,
        padding matches Some(filler) ==> 2 + padding_bytes(filler.len() as int).len() + body.len()
            + filler.len() <= MAX_PACKET_BYTES,
    ensures
        ({
            let packet = match padding {
                Some(filler) => seq![toc, (64 + count) as u8] + padding_bytes(filler.len() as int)
                    + body + filler,
                None => seq![toc, count as u8] + body,
            };
            packet_refusal(packet) is None <==> body.len() as int % count == 0 && body.len()
                as int / count <= 1_275 && frame_micros(toc as int / 8) * count == 20_000
        }),
{
    vstd::arithmetic::power2::lemma2_to64();
    let packet = match padding {
        Some(filler) => seq![toc, (64 + count) as u8] + padding_bytes(filler.len() as int) + body
            + filler,
        None => seq![toc, count as u8] + body,
    };
    let payload = packet.skip(1);
    let rest = payload.skip(1);
    assert(packet[0] == toc);
    match padding {
        Some(filler) => {
            assert(payload[0] == 64 + count);
            let written = padding_bytes(filler.len() as int);
            assert(rest =~= written + (body + filler));
            lemma_padding_is_read(filler.len() as int, body + filler);
            assert(rest.subrange(written.len() as int, rest.len() - filler.len()) =~= body);
        },
        None => {
            assert(payload[0] == count);
            assert(rest =~= body);
        },
    }
    let samples = samples_per_frame(toc);
    law_frames_last_by_configuration(toc);
    lemma_samples_and_time(samples, frame_micros(toc as int / 8), count);
}

/// A packet that says it has no frame, or more than 48, is refused, and so is one that says
/// it has some and ends there, or whose padding is longer than itself.
#[verifier::rlimit(60)]
#[verifier::spinoff_prover]
pub proof fn law_impossible_packets_are_refused(packet: Seq<u8>)
    requires
        0 < packet.len() <= MAX_PACKET_BYTES,
        packet[0] % 4 == 3,
        ({
            ||| packet.len() == 1
            ||| packet[1] % 64 == 0
            ||| packet[1] % 64 > 48
            ||| packet[1] / 64 % 2 == 1 && packet.len() == 2
            ||| packet[1] / 64 % 2 == 1 && packet[2] < 255 && packet[2] > packet.len() - 3
        }),
    ensures
        packet_refusal(packet) is Some,
{
    let payload = packet.skip(1);
    let rest = payload.skip(1);
    if packet.len() >= 2 {
        assert(payload[0] == packet[1]);
        if packet.len() >= 3 {
            assert(rest[0] == packet[2]);
        }
    }
}

} // verus!
