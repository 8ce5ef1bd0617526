//! Samples as integers.

use super::encoding::{channel_fault, validate_channel_alignment};
use crate::bytes::{le16_bytes, push_le16};
use crate::errors::Error;
use crate::media::DecodedFrame;
use vstd::prelude::*;

verus! {

/// Two to a small power.
pub open spec fn doubled(value: int, times: int) -> int
    decreases times,
{
    if times <= 0 {
        value
    } else {
        2 * doubled(value, times - 1)
    }
}

/// What a byte of mu-law stands for: all its bits are flipped; the first says the sign, the
/// next three how often the step is doubled, and the last four the step.
pub open spec fn mulaw_value(sample: u8) -> int {
    let flipped = 255 - sample;
    let magnitude = doubled((flipped % 16) * 8 + 132, (flipped / 16) % 8);
    if flipped < 128 {
        magnitude - 132
    } else {
        132 - magnitude
    }
}

/// The magnitude of a sample of A-law whose even bits are flipped back.
pub open spec fn alaw_magnitude(sample: u8) -> int {
    let segment = (sample as int / 16) % 8;
    let step = (sample as int % 16) * 16;
    if segment == 0 {
        step + 8
    } else {
        doubled(step + 264, segment - 1)
    }
}

/// What a byte of A-law stands for: its even bits are flipped; the first bit says the sign.
pub open spec fn alaw_value(sample: u8) -> int {
    let flipped = sample ^ 0x55u8;
    if flipped < 128 {
        -alaw_magnitude(flipped)
    } else {
        alaw_magnitude(flipped)
    }
}

fn double(value: i32, times: u8) -> (result: i32)
    requires
        0 <= value <= 1023,
        times <= 7,
    ensures
        result == doubled(value as int, times as int),
        0 <= result <= 131_000,
{
    let mut result: i32 = value;
    let mut done: u8 = 0;
    while done < times
        invariant
            done <= times <= 7,
            0 <= value <= 1023,
            result == doubled(value as int, done as int),
            0 <= result,
            done == 0 ==> result <= 1023,
            done == 1 ==> result <= 2046,
            done == 2 ==> result <= 4092,
            done == 3 ==> result <= 8184,
            done == 4 ==> result <= 16368,
            done == 5 ==> result <= 32736,
            done == 6 ==> result <= 65472,
            done == 7 ==> result <= 130944,
        decreases times - done,
    {
        result = result * 2;
        done = done + 1;
    }
    result
}

proof fn lemma_doubled_is_less(value: int, times: int)
    requires
        0 <= value,
        0 <= times <= 7,
    ensures
        doubled(value, times) == value * (if times == 0 {
            1int
        } else if times == 1 {
            2
        } else if times == 2 {
            4
        } else if times == 3 {
            8
        } else if times == 4 {
            16
        } else if times == 5 {
            32
        } else if times == 6 {
            64
        } else {
            128
        }),
{
    reveal_with_fuel(doubled, 8);
}

pub fn decode_mulaw(sample: u8) -> (value: i16)
    ensures
        value == mulaw_value(sample),
{
    let flipped: u8 = 255 - sample;
    let step: i32 = (flipped % 16) as i32 * 8 + 132;
    let times: u8 = (flipped / 16) % 8;
    let magnitude: i32 = double(step, times);
    proof {
        lemma_doubled_is_less(step as int, times as int);
    }
    if flipped < 128 {
        (magnitude - 132) as i16
    } else {
        (132 - magnitude) as i16
    }
}

pub fn decode_alaw(sample: u8) -> (value: i16)
    ensures
        value == alaw_value(sample),
{
    let flipped: u8 = sample ^ 0x55;
    let segment: u8 = (flipped / 16) % 8;
    let step: i32 = (flipped % 16) as i32 * 16;
    let magnitude: i32 = if segment == 0 {
        step + 8
    } else {
        proof {
            lemma_doubled_is_less(step + 264, segment - 1);
        }
        double(step + 264, segment - 1)
    };
    if flipped < 128 {
        (-magnitude) as i16
    } else {
        magnitude as i16
    }
}

/// The sum of some samples.
pub open spec fn sum_of(samples: Seq<i16>) -> int
    decreases samples.len(),
{
    if samples.len() == 0 {
        0
    } else {
        sum_of(samples.drop_last()) + samples.last()
    }
}

/// A quotient without its fraction.
pub open spec fn towards_zero(a: int, b: int) -> int {
    if a >= 0 {
        a / b
    } else {
        -((-a) / b)
    }
}

/// The average of the samples of one moment, without its fraction.
pub open spec fn mono_sample(samples: Seq<i16>, channels: int, frame: int) -> int {
    towards_zero(
        sum_of(samples.subrange(frame * channels, frame * channels + channels)),
        channels,
    )
}

/// A sample as two bytes, the low one first.
pub open spec fn sample_bytes(value: int) -> Seq<u8> {
    le16_bytes((value % 0x1_0000) as u16)
}

/// The first frames of some samples, mixed down to one channel.
pub open spec fn mono_bytes(samples: Seq<i16>, channels: int, frames: int) -> Seq<u8>
    decreases frames,
{
    if frames <= 0 {
        seq![]
    } else {
        mono_bytes(samples, channels, frames - 1) + sample_bytes(
            mono_sample(samples, channels, frames - 1),
        )
    }
}

proof fn lemma_sum_bound(samples: Seq<i16>)
    ensures
        -32768 * samples.len() <= sum_of(samples) <= 32767 * samples.len(),
    decreases samples.len(),
{
    if samples.len() > 0 {
        lemma_sum_bound(samples.drop_last());
    }
}

fn sum_samples(samples: &[i16], from: usize, count: usize) -> (sum: i128)
    requires
        from + count <= samples@.len(),
    ensures
        sum == sum_of(samples@.subrange(from as int, from + count)),
{
    let len = samples.len();
    let mut sum: i128 = 0;
    let mut i: usize = 0;
    assert(samples@.subrange(from as int, from as int) =~= seq![]);
    while i < count
        invariant
            i <= count,
            len == samples@.len(),
            from + count <= len,
            sum == sum_of(samples@.subrange(from as int, from + i)),
            -0x1_0000_0000_0000_0000_0000 < sum < 0x1_0000_0000_0000_0000_0000,
            -32768 * i <= sum <= 32767 * i,
        decreases count - i,
    {
        proof {
            let next = samples@.subrange(from as int, from + i + 1);
            assert(next.drop_last() =~= samples@.subrange(from as int, from + i));
            assert(next.last() == samples@[from + i]);
        }
        sum = sum + samples[from + i] as i128;
        i = i + 1;
    }
    sum
}

/// The average without its fraction, of as many samples as were summed up.
fn average(sum: i128, count: usize) -> (value: i16)
    requires
        count > 0,
        -32768 * count <= sum <= 32767 * count,
    ensures
        value == towards_zero(sum as int, count as int),
{
    if sum >= 0 {
        let size: u128 = sum as u128;
        let value: u128 = size / (count as u128);
        proof {
            vstd::arithmetic::div_mod::lemma_div_is_ordered(
                sum as int,
                32767 * count,
                count as int,
            );
            vstd::arithmetic::div_mod::lemma_div_by_multiple(32767, count as int);
        }
        value as i16
    } else {
        let size: u128 = (-sum) as u128;
        let value: u128 = size / (count as u128);
        proof {
            vstd::arithmetic::div_mod::lemma_div_is_ordered(
                -sum as int,
                32768 * count,
                count as int,
            );
            vstd::arithmetic::div_mod::lemma_div_by_multiple(32768, count as int);
        }
        (-(value as i32)) as i16
    }
}

fn push_sample(out: &mut Vec<u8>, value: i16)
    ensures
        final(out)@ == old(out)@ + sample_bytes(value as int),
{
    let bits: u16 = if value >= 0 {
        value as u16
    } else {
        (value as i32 + 0x1_0000) as u16
    };
    push_le16(out, bits);
}

/// Mixes interleaved samples down to one channel, each written as two bytes.
pub fn interleaved_i16_to_mono_s16le(samples: &[i16], channels: usize) -> (mono: Result<
    Vec<u8>,
    Error,
>)
    ensures
        match channel_fault(channels, samples@.len() as usize) {
            Some(error) => mono == Err::<Vec<u8>, Error>(Error::Pcm(error)),
            None => mono matches Ok(mono) && mono@ == mono_bytes(
                samples@,
                channels as int,
                samples@.len() as int / channels as int,
            ),
        },
{
    let len = samples.len();
    if let Err(error) = validate_channel_alignment(channels, len) {
        return Err(error);
    }
    let frames: usize = len / channels;
    proof {
        vstd::arithmetic::div_mod::lemma_fundamental_div_mod(len as int, channels as int);
        assert(channels as int * (len as int / channels as int) == frames as int
            * channels as int) by (nonlinear_arith)
            requires
                frames as int == len as int / channels as int,
        ;
    }
    let mut mono: Vec<u8> = Vec::new();
    let mut frame: usize = 0;
    let mut at: usize = 0;
    while frame < frames
        invariant
            frame <= frames,
            channels > 0,
            len == samples@.len(),
            frames * channels == len,
            at == frame * channels,
            mono@ == mono_bytes(samples@, channels as int, frame as int),
        decreases frames - frame,
    {
        proof {
            assert(frame * channels + channels == (frame + 1) * channels) by (nonlinear_arith);
            assert((frame + 1) * channels <= frames * channels) by (nonlinear_arith)
                requires
                    frame + 1 <= frames,
            ;
            lemma_sum_bound(samples@.subrange(at as int, at + channels));
        }
        let sum = sum_samples(samples, at, channels);
        let value = average(sum, channels);
        push_sample(&mut mono, value);
        at = at + channels;
        frame = frame + 1;
    }
    Ok(mono)
}

impl<Raw> DecodedFrame<Raw> {
    /// The samples mixed down to one channel.
    pub fn to_mono_s16le_bytes(&self) -> (mono: Result<Vec<u8>, Error>)
        ensures
            match channel_fault(self.pcm_layout.channels, self.pcm@.len() as usize) {
                Some(error) => mono == Err::<Vec<u8>, Error>(Error::Pcm(error)),
                None => mono matches Ok(mono) && mono@ == mono_bytes(
                    self.pcm@,
                    self.pcm_layout.channels as int,
                    self.pcm@.len() as int / self.pcm_layout.channels as int,
                ),
            },
    {
        interleaved_i16_to_mono_s16le(self.pcm.as_slice(), self.pcm_layout.channels)
    }
}

/// The codes of mu-law of one sign, by how far their flipped low seven bits count: the
/// first stands for nothing, and each further one for more. From one code to the next of
/// its segment of sixteen the value grows by eight, doubled once for every segment before;
/// from the last code of a segment to the first of the next by half as much again. The
/// codes that differ in the first bit alone stand for opposite values.
pub proof fn law_mulaw_steps(sample: u8)
    requires
        sample >= 128,
    ensures
        mulaw_value(255) == 0,
        mulaw_value((sample - 128) as u8) == -mulaw_value(sample),
        sample > 128 ==> ({
            let flipped = 255 - sample;
            let grows = mulaw_value((sample - 1) as u8) - mulaw_value(sample);
            let step = 8 * vstd::arithmetic::power2::pow2((flipped / 16) as nat);
            if flipped % 16 < 15 {
                grows == step
            } else {
                2 * grows == 3 * step
            }
        }),
{
    vstd::arithmetic::power2::lemma2_to64();
    let flipped = 255 - sample;
    lemma_doubled_is_less((flipped % 16) * 8 + 132, (flipped / 16) % 8);
    assert((flipped + 128) % 16 == flipped % 16 && ((flipped + 128) / 16) % 8 == (flipped / 16)
        % 8);
    assert(mulaw_value(255) == 0) by {
        lemma_doubled_is_less(132, 0);
    }
    if sample > 128 {
        let next = flipped + 1;
        lemma_doubled_is_less((next % 16) * 8 + 132, (next / 16) % 8);
    }
}

/// Louder codes stand for louder samples: over all codes of one sign, the value of mu-law
/// grows with the flipped low seven bits.
pub proof fn law_mulaw_grows(quieter: u8, louder: u8)
    requires
        128 <= louder < quieter,
    ensures
        0 <= mulaw_value(quieter) < mulaw_value(louder),
    decreases 255 - louder,
{
    vstd::arithmetic::power2::lemma2_to64();
    law_mulaw_steps((louder + 1) as u8);
    vstd::arithmetic::power2::lemma_pow2_pos(((255 - (louder + 1)) / 16) as nat);
    if louder + 1 < quieter {
        law_mulaw_grows(quieter, (louder + 1) as u8);
    } else if quieter < 255 {
        law_mulaw_grows(255, quieter);
    }
}

/// The codes of A-law of one sign, by their low seven bits with the even ones flipped: the
/// first stands for half a step, and each further one for more. From one code to the next
/// of its segment of sixteen the value grows by sixteen, doubled once for every segment
/// before but the first; from the last code of a segment to the first of the next by the
/// mean of the two steps. The codes that differ in the first bit alone stand for opposite
/// values.
pub proof fn law_alaw_steps(code: u8)
    requires
        code < 128,
    ensures
        alaw_value(0x80u8 ^ 0x55u8) == 8,
        alaw_value(code ^ 0x55u8) == -alaw_value(((code + 128) as u8) ^ 0x55u8),
        code < 127 ==> ({
            let grows = alaw_value(((code + 129) as u8) ^ 0x55u8) - alaw_value(
                ((code + 128) as u8) ^ 0x55u8,
            );
            let step = |segment: int|
                16 * vstd::arithmetic::power2::pow2(
                    if segment == 0 {
                        0
                    } else {
                        (segment - 1) as nat
                    },
                );
            2 * grows == step(code as int / 16) + step((code as int + 1) / 16)
        }),
{
    vstd::arithmetic::power2::lemma2_to64();
    let loud: u8 = (code + 128) as u8;
    assert((0x80u8 ^ 0x55u8) ^ 0x55u8 == 0x80u8 && (code ^ 0x55u8) ^ 0x55u8 == code && (loud
        ^ 0x55u8) ^ 0x55u8 == loud) by (bit_vector);
    lemma_doubled_is_less((code as int % 16) * 16 + 264, if code < 16 {
        0
    } else {
        code as int / 16 - 1
    });
    assert((code + 128) % 16 == code % 16 && ((code + 128) / 16) % 8 == (code / 16) % 8);
    if code < 127 {
        let next: u8 = (code + 1) as u8;
        let louder: u8 = (code + 129) as u8;
        assert((louder ^ 0x55u8) ^ 0x55u8 == louder) by (bit_vector);
        lemma_doubled_is_less((next as int % 16) * 16 + 264, if next < 16 {
            0
        } else {
            next as int / 16 - 1
        });
        assert((next + 128) % 16 == next % 16 && ((next + 128) / 16) % 8 == (next / 16) % 8);
    }
}

proof fn lemma_sum_is_fold(samples: Seq<i16>)
    ensures
        sum_of(samples) == samples.fold_left(0, |sum: int, sample: i16| sum + sample),
    decreases samples.len(),
{
    if samples.len() > 0 {
        lemma_sum_is_fold(samples.drop_last());
    }
}

proof fn lemma_mono_bytes_at(samples: Seq<i16>, channels: int, frames: int, frame: int)
    requires
        0 <= frame < frames,
    ensures
        mono_bytes(samples, channels, frames).len() == 2 * frames,
        mono_bytes(samples, channels, frames).subrange(2 * frame, 2 * frame + 2) == sample_bytes(
            mono_sample(samples, channels, frame),
        ),
    decreases frames,
{
    let before = mono_bytes(samples, channels, frames - 1);
    if frames > 1 {
        lemma_mono_bytes_at(samples, channels, frames - 1, if frame < frames - 1 {
            frame
        } else {
            0
        });
    }
    let whole = mono_bytes(samples, channels, frames);
    if frame < frames - 1 {
        assert(whole.subrange(2 * frame, 2 * frame + 2) =~= before.subrange(
            2 * frame,
            2 * frame + 2,
        ));
    } else {
        assert(whole.subrange(2 * frame, 2 * frame + 2) =~= sample_bytes(
            mono_sample(samples, channels, frame),
        ));
    }
}

/// The number that two bytes hold, the low one first, as a signed one.
pub open spec fn signed_number(low: u8, high: u8) -> int {
    let number = low + 256 * high;
    if number < 0x8000 {
        number
    } else {
        number - 0x1_0000
    }
}

/// Mixing down gives two bytes for every moment, and they hold the mean of that moment's
/// samples: as many times that number as there are channels is the sum of the samples, but
/// for a remainder that is smaller than their count and has the sum's sign.
pub proof fn law_mono_is_the_mean(samples: Seq<i16>, channels: int, frames: int, frame: int)
    requires
        0 < channels,
        0 <= frame < frames,
        frames * channels <= samples.len(),
    ensures
        mono_bytes(samples, channels, frames).len() == 2 * frames,
        ({
            let mono = mono_bytes(samples, channels, frames);
            let mean = signed_number(mono[2 * frame], mono[2 * frame + 1]);
            let sum = samples.subrange(frame * channels, frame * channels + channels).fold_left(
                0,
                |sum: int, sample: i16| sum + sample,
            );
            if sum >= 0 {
                0 <= sum - mean * channels < channels
            } else {
                0 <= mean * channels - sum < channels
            }
        }),
{
    let mono = mono_bytes(samples, channels, frames);
    lemma_mono_bytes_at(samples, channels, frames, frame);
    let pair = mono.subrange(2 * frame, 2 * frame + 2);
    assert(pair[0] == mono[2 * frame] && pair[1] == mono[2 * frame + 1]);
    assert(frame * channels + channels <= frames * channels) by (nonlinear_arith)
        requires
            frame + 1 <= frames,
            0 < channels,
    ;
    assert(0 <= frame * channels) by (nonlinear_arith)
        requires
            0 <= frame,
            0 < channels,
    ;
    let moment = samples.subrange(frame * channels, frame * channels + channels);
    lemma_sum_is_fold(moment);
    lemma_sum_bound(moment);
    let sum = sum_of(moment);
    let size = if sum >= 0 {
        sum
    } else {
        -sum
    };
    vstd::arithmetic::div_mod::lemma_fundamental_div_mod(size, channels);
    vstd::arithmetic::div_mod::lemma_mod_bound(size, channels);
    let quotient = size / channels;
    assert(channels * quotient == quotient * channels && -(quotient * channels) == (-quotient)
        * channels) by (nonlinear_arith);
    assert(0 <= quotient && (sum >= 0 ==> quotient <= 32767) && quotient <= 32768)
        by (nonlinear_arith)
        requires
            0 < channels,
            size == channels * quotient + size % channels,
            0 <= size % channels < channels,
            0 <= size <= 32768 * channels,
            sum >= 0 ==> size <= 32767 * channels,
    ;
}

/// Where every channel holds the same sample, that sample comes out; so samples of one
/// channel come out as they are.
pub proof fn law_equal_channels_stay(samples: Seq<i16>, channels: int, frame: int, sample: i16)
    requires
        0 < channels,
        0 <= frame,
        frame * channels + channels <= samples.len(),
        forall|i: int|
            frame * channels <= i < frame * channels + channels ==> #[trigger] samples[i]
                == sample,
    ensures
        mono_sample(samples, channels, frame) == sample,
{
    assert(0 <= frame * channels) by (nonlinear_arith)
        requires
            0 <= frame,
            0 < channels,
    ;
    let moment = samples.subrange(frame * channels, frame * channels + channels);
    lemma_equal_sum(moment, sample);
    vstd::arithmetic::div_mod::lemma_div_multiples_vanish(sample as int, channels);
    vstd::arithmetic::div_mod::lemma_div_multiples_vanish(-(sample as int), channels);
    assert(-(channels * (sample as int)) == channels * -(sample as int)) by (nonlinear_arith);
    assert((sample >= 0) == (channels * (sample as int) >= 0)) by (nonlinear_arith)
        requires
            0 < channels,
    ;
}

proof fn lemma_equal_sum(samples: Seq<i16>, sample: i16)
    requires
        forall|i: int| 0 <= i < samples.len() ==> samples[i] == sample,
    ensures
        sum_of(samples) == samples.len() * (sample as int),
    decreases samples.len(),
{
    if samples.len() > 0 {
        lemma_equal_sum(samples.drop_last(), sample);
        assert((samples.len() - 1) * (sample as int) + sample == samples.len() * (sample as int))
            by (nonlinear_arith);
    } else {
        assert(0 * (sample as int) == 0) by (nonlinear_arith);
    }
}

} // verus!
