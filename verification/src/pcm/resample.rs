//! What surrounds a resampler: the samples that wait for it, and the samples that come of
//! it.

use super::encoding::{channel_fault, validate_channel_alignment};
use crate::errors::{Error, PcmError};
use crate::nonzero::NonZeroU32;
use vstd::prelude::*;

verus! {

/// From how many taken samples on those that wait are moved to the front.
pub const SOURCE_BUFFER_COMPACT_FRAMES: usize = 32_768;

/// The rates that audio is resampled between.
#[derive(Clone, Copy, Debug, PartialEq, Eq, Structural)]
pub struct ResampleRates {
    pub input: NonZeroU32,
    pub output: NonZeroU32,
}

/// Why nothing is resampled with so many channels, so many frames at a time.
pub open spec fn resampler_refusal(channels: usize, chunk_frames: usize) -> Option<Error> {
    if channels == 0 {
        Some(Error::Pcm(PcmError::ChannelCountZero))
    } else if chunk_frames == 0 {
        Some(Error::Pcm(PcmError::ResamplerChunkFramesZero))
    } else {
        None
    }
}

impl ResampleRates {
    pub fn from_hz(
        input_sample_rate_hz: u32,
        output_sample_rate_hz: u32,
        channels: usize,
        chunk_frames: usize,
    ) -> (rates: Result<Self, Error>)
        ensures
            if input_sample_rate_hz == 0 || output_sample_rate_hz == 0 {
                rates == Err::<Self, Error>(Error::Pcm(PcmError::SampleRateZero))
            } else {
                match resampler_refusal(channels, chunk_frames) {
                    Some(error) => rates == Err::<Self, Error>(error),
                    None => rates matches Ok(rates) && rates.input@ == input_sample_rate_hz
                        && rates.output@ == output_sample_rate_hz,
                }
            },
    {
        match (NonZeroU32::new(input_sample_rate_hz), NonZeroU32::new(output_sample_rate_hz)) {
            (Some(input), Some(output)) => Self::new(input, output, channels, chunk_frames),
            _ => Err(Error::Pcm(PcmError::SampleRateZero)),
        }
    }

    pub fn new(
        input_sample_rate_hz: NonZeroU32,
        output_sample_rate_hz: NonZeroU32,
        channels: usize,
        chunk_frames: usize,
    ) -> (rates: Result<Self, Error>)
        ensures
            rates == (match resampler_refusal(channels, chunk_frames) {
                Some(error) => Err::<Self, Error>(error),
                None => Ok::<Self, Error>(
                    ResampleRates { input: input_sample_rate_hz, output: output_sample_rate_hz },
                ),
            }),
    {
        if channels == 0 {
            return Err(Error::Pcm(PcmError::ChannelCountZero));
        }
        if chunk_frames == 0 {
            return Err(Error::Pcm(PcmError::ResamplerChunkFramesZero));
        }
        Ok(ResampleRates { input: input_sample_rate_hz, output: output_sample_rate_hz })
    }

    /// Whether the rates differ.
    pub fn resampling_required(&self) -> (required: bool)
        ensures
            required == (self.input@ != self.output@),
    {
        self.input.get() != self.output.get()
    }

    pub fn input_sample_rate_hz(&self) -> (rate: NonZeroU32)
        ensures
            rate == self.input,
    {
        self.input
    }

    pub fn output_sample_rate_hz(&self) -> (rate: NonZeroU32)
        ensures
            rate == self.output,
    {
        self.output
    }
}

/// One channel of interleaved samples.
pub open spec fn channel_of<T>(samples: Seq<T>, channels: int, channel: int) -> Seq<T> {
    Seq::new(
        (samples.len() as int / channels) as nat,
        |frame: int| samples[frame * channels + channel],
    )
}

/// The samples that wait, by channel.
pub struct SourceBuffer<T> {
    samples: Vec<Vec<T>>,
    start: usize,
}

impl<T> SourceBuffer<T> {
    #[verifier::type_invariant]
    spec fn even(self) -> bool {
        level(self.samples@, self.start as int)
    }
}

impl<T: Copy> SourceBuffer<T> {
    pub closed spec fn channels(self) -> int {
        self.samples@.len() as int
    }

    /// How many samples wait in every channel.
    pub closed spec fn waiting(self) -> int {
        self.samples@[0]@.len() - self.start
    }

    /// The samples that wait in a channel.
    pub closed spec fn channel(self, channel: int) -> Seq<T> {
        self.samples@[channel]@.skip(self.start as int)
    }

    pub fn new(channels: usize) -> (buffer: Self)
        requires
            channels > 0,
        ensures
            buffer.channels() == channels,
            buffer.waiting() == 0,
            forall|channel: int|
                0 <= channel < channels ==> #[trigger] buffer.channel(channel) == Seq::<T>::empty(),
    {
        let mut samples: Vec<Vec<T>> = Vec::new();
        while samples.len() < channels
            invariant
                samples@.len() <= channels,
                forall|channel: int|
                    0 <= channel < samples@.len() ==> (#[trigger] samples@[channel])@.len() == 0,
            decreases channels - samples@.len(),
        {
            samples.push(Vec::new());
        }
        let buffer = SourceBuffer { samples, start: 0 };
        assert forall|channel: int| 0 <= channel < channels implies #[trigger] buffer.channel(
            channel,
        ) == Seq::<T>::empty() by {
            assert(buffer.samples@[channel]@.len() == 0);
            assert(buffer.channel(channel) =~= Seq::<T>::empty());
        }
        buffer
    }

    pub fn frames(&self) -> (frames: usize)
        ensures
            frames == self.waiting(),
            forall|channel: int|
                0 <= channel < self.channels() ==> #[trigger] self.channel(channel).len() == frames,
    {
        proof {
            use_type_invariant(self);
        }
        self.samples[0].len() - self.start
    }

    /// Adds interleaved samples. They have to fill all channels alike.
    pub fn append(&mut self, samples: &[T]) -> (frames: Result<usize, Error>)
        requires
            old(self).channels() <= usize::MAX,
        ensures
            final(self).channels() == old(self).channels(),
            match channel_fault(old(self).channels() as usize, samples@.len() as usize) {
                Some(error) => {
                    &&& frames == Err::<usize, Error>(Error::Pcm(error))
                    &&& *final(self) == *old(self)
                },
                None => {
                    let count = samples@.len() as int / old(self).channels();
                    &&& frames == Ok::<usize, Error>(count as usize)
                    &&& final(self).waiting() == old(self).waiting() + count
                    &&& forall|channel: int|
                        0 <= channel < old(self).channels() ==> #[trigger] final(self).channel(
                            channel,
                        ) == old(self).channel(channel) + channel_of(
                            samples@,
                            old(self).channels(),
                            channel,
                        )
                },
            },
    {
        proof {
            use_type_invariant(&*self);
        }
        let channels = self.samples.len();
        let len = samples.len();
        if let Err(error) = validate_channel_alignment(channels, len) {
            return Err(error);
        }
        let frames: usize = len / channels;
        proof {
            vstd::arithmetic::div_mod::lemma_fundamental_div_mod(len as int, channels as int);
            assert(channels as int * (len as int / channels as int) == frames as int
                * channels as int) by (nonlinear_arith)
                requires
                    frames as int == len as int / channels as int,
            ;
        }
        let ghost whole = *self;
        let (rows, start) = self.take_rows();
        let (mut buffered, start) = compacted(rows, start);
        let ghost before = buffered@;
        let mut channel: usize = 0;
        while channel < channels
            invariant
                channels > 0,
                channel <= channels,
                channels == buffered@.len() == before.len(),
                len == samples@.len(),
                frames * channels == len,
                frames == len as int / channels as int,
                forall|c: int|
                    0 <= c < channel ==> (#[trigger] buffered@[c])@ == before[c]@ + channel_of(
                        samples@,
                        channels as int,
                        c,
                    ),
                forall|c: int| channel <= c < channels ==> #[trigger] buffered@[c] == before[c],
            decreases channels - channel,
        {
            let mut row: Vec<T> = Vec::new();
            std::mem::swap(&mut row, &mut buffered[channel]);
            append_channel(&mut row, samples, channels, channel, frames);
            buffered.set(channel, row);
            channel = channel + 1;
        }
        proof {
            assert forall|c: int| 0 <= c < channels implies (#[trigger] buffered@[c])@.len()
                == buffered@[0]@.len() by {
                assert(before[c]@.len() == before[0]@.len());
                assert(buffered@[0]@ == before[0]@ + channel_of(samples@, channels as int, 0));
            }
            assert(buffered@[0]@ == before[0]@ + channel_of(samples@, channels as int, 0));
        }
        *self = SourceBuffer { samples: buffered, start };
        proof {
            assert forall|c: int| 0 <= c < channels implies #[trigger] self.channel(c)
                == whole.channel(c) + channel_of(samples@, channels as int, c) by {
                assert(buffered@[c]@ == before[c]@ + channel_of(samples@, channels as int, c));
                assert(before[c]@.skip(start as int) == whole.channel(c));
                assert(before[c]@.len() == before[0]@.len());
                assert(self.channel(c) =~= before[c]@.skip(start as int) + channel_of(
                    samples@,
                    channels as int,
                    c,
                ));
            }
            assert(before[0]@.skip(start as int) == whole.channel(0));
        }
        Ok(frames)
    }

    /// Takes the rows out, to be put back changed.
    fn take_rows(&mut self) -> (rows: (Vec<Vec<T>>, usize))
        ensures
            rows.0@ == old(self).samples@,
            rows.1 == old(self).start,
            level(rows.0@, rows.1 as int),
    {
        let mut whole = SourceBuffer::new(1);
        std::mem::swap(self, &mut whole);
        proof {
            use_type_invariant(&whole);
        }
        let SourceBuffer { samples, start } = whole;
        (samples, start)
    }

    /// The next samples for a resampler: so many frames, of which the first ones are those
    /// that wait, and the others are filled up.
    pub fn input(&self, frames: usize, valid: usize, fill: T) -> (rows: Vec<Vec<T>>)
        requires
            valid <= frames,
            valid <= self.waiting(),
        ensures
            rows@.len() == self.channels(),
            forall|channel: int|
                0 <= channel < self.channels() ==> filled(
                    (#[trigger] rows@[channel])@,
                    self.channel(channel).take(valid as int),
                    frames as int,
                    fill,
                ),
    {
        proof {
            use_type_invariant(self);
        }
        let channels = self.samples.len();
        let mut rows: Vec<Vec<T>> = Vec::new();
        while rows.len() < channels
            invariant
                level(self.samples@, self.start as int),
                channels == self.samples@.len(),
                rows@.len() <= channels,
                valid <= frames,
                valid <= self.waiting(),
                forall|channel: int|
                    0 <= channel < rows@.len() ==> filled(
                        (#[trigger] rows@[channel])@,
                        self.channel(channel).take(valid as int),
                        frames as int,
                        fill,
                    ),
            decreases channels - rows@.len(),
        {
            let channel = rows.len();
            assert(self.samples@[channel as int]@.len() == self.samples@[0]@.len());
            let row = filled_row(&self.samples[channel], self.start, valid, frames, fill);
            rows.push(row);
        }
        rows
    }

    /// Drops samples that a resampler has taken.
    pub fn consume(&mut self, frames: usize)
        requires
            frames <= old(self).waiting(),
        ensures
            final(self).channels() == old(self).channels(),
            final(self).waiting() == old(self).waiting() - frames,
            forall|channel: int|
                0 <= channel < old(self).channels() ==> #[trigger] final(self).channel(channel)
                    == old(self).channel(channel).skip(frames as int),
    {
        let ghost whole = *self;
        let (rows, start) = self.take_rows();
        let ghost before = rows@;
        let len = rows[0].len();
        let from: usize = start + frames;
        let (samples, start) = compacted(rows, from);
        proof {
            assert(samples@[0]@.skip(start as int) == before[0]@.skip(from as int));
        }
        *self = SourceBuffer { samples, start };
        proof {
            assert forall|c: int| 0 <= c < whole.channels() implies #[trigger] self.channel(c)
                == whole.channel(c).skip(frames as int) by {
                assert(samples@[c]@.skip(start as int) == before[c]@.skip(from as int));
                assert(before[c]@.len() == before[0]@.len());
                assert(before[c]@.skip(from as int) =~= whole.channel(c).skip(frames as int));
            }
        }
    }

    /// Drops everything that waits.
    pub fn clear(&mut self)
        ensures
            final(self).channels() == old(self).channels(),
            final(self).waiting() == 0,
            forall|channel: int|
                0 <= channel < old(self).channels() ==> #[trigger] final(self).channel(channel)
                    == Seq::<T>::empty(),
    {
        let frames = self.frames();
        let ghost before = *self;
        self.consume(frames);
        proof {
            assert forall|channel: int| 0 <= channel < before.channels() implies #[trigger]
                self.channel(channel) == Seq::<T>::empty() by {
                assert(before.channel(channel).len() == frames);
                assert(before.channel(channel).skip(frames as int) =~= Seq::<T>::empty());
            }
        }
    }
}

/// Whether all rows are of one length, and start within it.
spec fn level<T>(rows: Seq<Vec<T>>, start: int) -> bool {
    &&& rows.len() > 0
    &&& forall|channel: int|
        0 <= channel < rows.len() ==> (#[trigger] rows[channel])@.len() == rows[0]@.len()
    &&& start <= rows[0]@.len()
}

/// Whether a row holds these samples, and is filled up to a length.
pub open spec fn filled<T>(row: Seq<T>, samples: Seq<T>, len: int, fill: T) -> bool {
    &&& row.len() == len
    &&& row.take(samples.len() as int) == samples
    &&& forall|i: int| samples.len() <= i < len ==> #[trigger] row[i] == fill
}

/// Moves the samples that wait to the front where that is worth it.
fn compacted<T: Copy>(rows: Vec<Vec<T>>, start: usize) -> (compact: (Vec<Vec<T>>, usize))
    requires
        level(rows@, start as int),
    ensures
        level(compact.0@, compact.1 as int),
        compact.0@.len() == rows@.len(),
        forall|channel: int|
            0 <= channel < rows@.len() ==> (#[trigger] compact.0@[channel])@.skip(
                compact.1 as int,
            ) == rows@[channel]@.skip(start as int),
{
    if start < SOURCE_BUFFER_COMPACT_FRAMES && start < rows[0].len() {
        return (rows, start);
    }
    let ghost before = rows@;
    let mut rows = rows;
    let channels = rows.len();
    let mut channel: usize = 0;
    while channel < channels
        invariant
            channel <= channels,
            channels == rows@.len() == before.len(),
            level(before, start as int),
            forall|c: int|
                0 <= c < channel ==> (#[trigger] rows@[c])@ == before[c]@.skip(start as int),
            forall|c: int| channel <= c < channels ==> #[trigger] rows@[c] == before[c],
        decreases channels - channel,
    {
        assert(before[channel as int]@.len() == before[0]@.len());
        let mut row: Vec<T> = Vec::new();
        std::mem::swap(&mut row, &mut rows[channel]);
        let tail = row.split_off(start);
        assert(tail@ =~= before[channel as int]@.skip(start as int));
        rows.set(channel, tail);
        channel = channel + 1;
    }
    proof {
        assert forall|c: int| 0 <= c < channels implies (#[trigger] rows@[c])@.len()
            == rows@[0]@.len() by {
            assert(rows@[c]@ == before[c]@.skip(start as int));
            assert(rows@[0]@ == before[0]@.skip(start as int));
            assert(before[c]@.len() == before[0]@.len());
        }
        assert forall|c: int| 0 <= c < channels implies (#[trigger] rows@[c])@.skip(0)
            == before[c]@.skip(start as int) by {
            assert(rows@[c]@.skip(0) =~= rows@[c]@);
        }
    }
    (rows, 0)
}

fn append_channel<T: Copy>(
    row: &mut Vec<T>,
    samples: &[T],
    channels: usize,
    channel: usize,
    frames: usize,
)
    requires
        channel < channels,
        frames * channels == samples@.len(),
        frames == samples@.len() as int / channels as int,
    ensures
        final(row)@ == old(row)@ + channel_of(samples@, channels as int, channel as int),
{
    let ghost first = row@;
    let ghost wanted = channel_of(samples@, channels as int, channel as int);
    let len = samples.len();
    let mut frame: usize = 0;
    let mut at: usize = channel;
    assert(row@ =~= first + wanted.take(0));
    while frame < frames
        invariant
            len == samples@.len(),
            frame <= frames,
            channel < channels,
            frames * channels == len,
            wanted == channel_of(samples@, channels as int, channel as int),
            wanted.len() == frames,
            frame < frames ==> at == frame * channels + channel,
            row@ == first + wanted.take(frame as int),
        decreases frames - frame,
    {
        proof {
            assert((frame + 1) * channels == frame * channels + channels) by (nonlinear_arith);
            assert((frame + 1) * channels <= frames * channels) by (nonlinear_arith)
                requires
                    frame + 1 <= frames,
            ;
            assert(frame + 1 < frames ==> (frame + 2) * channels <= frames * channels)
                by (nonlinear_arith)
                requires
                    frame + 1 <= frames,
                    channels > 0,
            ;
            assert((frame + 2) * channels == frame * channels + channels + channels)
                by (nonlinear_arith);
        }
        row.push(samples[at]);
        frame = frame + 1;
        if frame < frames {
            at = at + channels;
        }
        assert(row@ =~= first + wanted.take(frame as int));
    }
    assert(wanted.take(frame as int) =~= wanted);
}

fn filled_row<T: Copy>(
    samples: &Vec<T>,
    start: usize,
    valid: usize,
    frames: usize,
    fill: T,
) -> (row: Vec<T>)
    requires
        valid <= frames,
        start + valid <= samples@.len(),
    ensures
        filled(row@, samples@.skip(start as int).take(valid as int), frames as int, fill),
{
    let ghost wanted = samples@.skip(start as int).take(valid as int);
    let len = samples.len();
    let mut row: Vec<T> = Vec::new();
    while row.len() < frames
        invariant
            len == samples@.len(),
            valid <= frames,
            start + valid <= len,
            row@.len() <= frames,
            wanted == samples@.skip(start as int).take(valid as int),
            forall|i: int| 0 <= i < row@.len() && i < valid ==> #[trigger] row@[i] == wanted[i],
            forall|i: int| valid <= i < row@.len() ==> #[trigger] row@[i] == fill,
        decreases frames - row@.len(),
    {
        let at = row.len();
        if at < valid {
            row.push(samples[start + at]);
        } else {
            row.push(fill);
        }
    }
    assert(row@.take(wanted.len() as int) =~= wanted);
    row
}

/// What is done next.
#[derive(Clone, Copy, Debug, PartialEq, Eq, Structural)]
pub enum ResampleStep {
    /// As many frames as the resampler asks for.
    Full,
    /// So many frames, and silence behind them.
    Partial(usize),
    Done,
}

/// What is done with so many frames that wait: whole portions while there are enough; at
/// the end what is left, and then silence until all that is expected has come out.
pub open spec fn next_step(
    waiting: int,
    wanted: int,
    expected: Option<usize>,
    emitted: int,
    after_full: bool,
) -> ResampleStep {
    if after_full && (expected matches Some(count) && emitted >= count) {
        ResampleStep::Done
    } else if waiting >= wanted {
        ResampleStep::Full
    } else {
        match expected {
            None => ResampleStep::Done,
            Some(count) => if waiting > 0 {
                ResampleStep::Partial(waiting as usize)
            } else if emitted < count {
                ResampleStep::Partial(0)
            } else {
                ResampleStep::Done
            },
        }
    }
}

/// What came of a resampler: how much of it is dropped at the start, and how much was given
/// out.
#[derive(Clone, Copy, Debug, PartialEq, Eq, Structural)]
pub struct OutputTrim {
    pub trim_output_frames: usize,
    pub emitted_output_frames: usize,
}

/// How many frames are dropped of so many.
pub open spec fn dropped(trim: OutputTrim, written: int) -> int {
    if trim.trim_output_frames <= written {
        trim.trim_output_frames as int
    } else {
        written
    }
}

/// How many frames are given out of so many: all that are not dropped, but no more than are
/// expected.
pub open spec fn given_out(trim: OutputTrim, written: int, expected: Option<usize>) -> int {
    let left = written - dropped(trim, written);
    match expected {
        Some(count) => if count <= trim.emitted_output_frames {
            0
        } else if count - trim.emitted_output_frames < left {
            count - trim.emitted_output_frames
        } else {
            left
        },
        None => left,
    }
}

impl OutputTrim {
    /// What is done next with what waits in `buffer`, where the resampler asks for so many
    /// frames.
    pub fn next<T: Copy>(
        &self,
        buffer: &SourceBuffer<T>,
        wanted: usize,
        expected: Option<usize>,
        after_full: bool,
    ) -> (step: ResampleStep)
        ensures
            step == next_step(
                buffer.waiting(),
                wanted as int,
                expected,
                self.emitted_output_frames as int,
                after_full,
            ),
    {
        let waiting = buffer.frames();
        if after_full {
            if let Some(count) = expected {
                if self.emitted_output_frames >= count {
                    return ResampleStep::Done;
                }
            }
        }
        if waiting >= wanted {
            return ResampleStep::Full;
        }
        match expected {
            None => ResampleStep::Done,
            Some(count) => if waiting > 0 {
                ResampleStep::Partial(waiting)
            } else if self.emitted_output_frames < count {
                ResampleStep::Partial(0)
            } else {
                ResampleStep::Done
            },
        }
    }

    /// Gives out what came of the resampler, a sample of each channel in turn.
    pub fn append<T: Copy>(
        &mut self,
        rows: &Vec<Vec<T>>,
        written: usize,
        expected: Option<usize>,
        output: &mut Vec<T>,
    )
        requires
            rows@.len() > 0,
            forall|channel: int|
                0 <= channel < rows@.len() ==> (#[trigger] rows@[channel])@.len() >= written,
            old(self).emitted_output_frames + written <= usize::MAX,
        ensures
            final(self).trim_output_frames == old(self).trim_output_frames - dropped(
                *old(self),
                written as int,
            ),
            final(self).emitted_output_frames == old(self).emitted_output_frames + given_out(
                *old(self),
                written as int,
                expected,
            ),
            final(output)@ == old(output)@ + interleaved(
                rows@,
                dropped(*old(self), written as int),
                given_out(*old(self), written as int, expected),
            ),
    {
        let trim: usize = if self.trim_output_frames <= written {
            self.trim_output_frames
        } else {
            written
        };
        self.trim_output_frames = self.trim_output_frames - trim;
        let ghost start = *old(self);
        let ghost count = given_out(start, written as int, expected);
        let ghost first = output@;
        let mut frame: usize = trim;
        assert(output@ =~= first + interleaved(rows@, trim as int, 0));
        while frame < written
            invariant_except_break
                frame - trim <= count,
            invariant
                rows@.len() > 0,
                forall|channel: int|
                    0 <= channel < rows@.len() ==> (#[trigger] rows@[channel])@.len() >= written,
                start.emitted_output_frames + written <= usize::MAX,
                trim == dropped(start, written as int),
                count == given_out(start, written as int, expected),
                trim <= frame <= written,
                self.trim_output_frames == start.trim_output_frames - trim,
                self.emitted_output_frames == start.emitted_output_frames + (frame - trim),
                output@ == first + interleaved(rows@, trim as int, frame - trim),
            ensures
                frame - trim == count,
            decreases written - frame,
        {
            if let Some(limit) = expected {
                if self.emitted_output_frames >= limit {
                    break;
                }
            }
            let ghost before = output@;
            push_frame(rows, frame, output);
            proof {
                assert(interleaved(rows@, trim as int, frame - trim + 1) =~= interleaved(
                    rows@,
                    trim as int,
                    frame - trim,
                ) + moment(rows@, frame as int));
                assert(output@ =~= first + interleaved(rows@, trim as int, frame - trim + 1));
            }
            self.emitted_output_frames = self.emitted_output_frames + 1;
            frame = frame + 1;
        }
    }
}

/// The samples of one moment, a channel after the other.
pub open spec fn moment<T>(rows: Seq<Vec<T>>, frame: int) -> Seq<T> {
    Seq::new(rows.len(), |channel: int| rows[channel]@[frame])
}

/// So many moments from one on.
pub open spec fn interleaved<T>(rows: Seq<Vec<T>>, from: int, count: int) -> Seq<T>
    decreases count,
{
    if count <= 0 {
        seq![]
    } else {
        interleaved(rows, from, count - 1) + moment(rows, from + count - 1)
    }
}

fn push_frame<T: Copy>(rows: &Vec<Vec<T>>, frame: usize, output: &mut Vec<T>)
    requires
        forall|channel: int|
            0 <= channel < rows@.len() ==> (#[trigger] rows@[channel])@.len() > frame,
    ensures
        final(output)@ == old(output)@ + moment(rows@, frame as int),
{
    let ghost first = output@;
    let ghost wanted = moment(rows@, frame as int);
    let channels = rows.len();
    let mut channel: usize = 0;
    assert(output@ =~= first + wanted.take(0));
    while channel < channels
        invariant
            channels == rows@.len(),
            channel <= channels,
            wanted == moment(rows@, frame as int),
            forall|c: int| 0 <= c < rows@.len() ==> (#[trigger] rows@[c])@.len() > frame,
            output@ == first + wanted.take(channel as int),
        decreases channels - channel,
    {
        assert(rows@[channel as int]@.len() > frame);
        output.push(rows[channel][frame]);
        channel = channel + 1;
        assert(output@ =~= first + wanted.take(channel as int));
    }
    assert(wanted.take(channel as int) =~= wanted);
}

/// Channels that are put together come apart again: of so many moments of some rows, each
/// channel holds that part of its row.
pub proof fn law_channels_come_apart<T>(rows: Seq<Vec<T>>, from: int, count: int, channel: int)
    requires
        0 <= channel < rows.len(),
        0 <= from,
        0 <= count,
        from + count <= rows[channel]@.len(),
    ensures
        interleaved(rows, from, count).len() == count * rows.len(),
        channel_of(interleaved(rows, from, count), rows.len() as int, channel)
            == rows[channel]@.subrange(from, from + count),
    decreases count,
{
    let channels = rows.len() as int;
    let whole = interleaved(rows, from, count);
    if count == 0 {
        assert(0 * channels == 0) by (nonlinear_arith);
        assert(0int / channels == 0) by (nonlinear_arith)
            requires
                0 < channels,
        ;
        assert(channel_of(whole, channels, channel) =~= rows[channel]@.subrange(from, from));
    } else {
        law_channels_come_apart(rows, from, count - 1, channel);
        let before = interleaved(rows, from, count - 1);
        let last = moment(rows, from + count - 1);
        assert((count - 1) * channels + channels == count * channels) by (nonlinear_arith);
        vstd::arithmetic::div_mod::lemma_div_multiples_vanish(count, channels);
        vstd::arithmetic::div_mod::lemma_div_multiples_vanish(count - 1, channels);
        assert(channels * count == count * channels && channels * (count - 1) == (count - 1)
            * channels) by (nonlinear_arith);
        let part = rows[channel]@.subrange(from, from + count);
        let earlier = channel_of(before, channels, channel);
        assert forall|frame: int| 0 <= frame < count implies #[trigger] channel_of(
            whole,
            channels,
            channel,
        )[frame] == part[frame] by {
            if frame < count - 1 {
                assert(frame * channels + channel < (count - 1) * channels) by (nonlinear_arith)
                    requires
                        frame + 1 <= count - 1,
                        0 <= channel < channels,
                ;
                assert(0 <= frame * channels) by (nonlinear_arith)
                    requires
                        0 <= frame,
                        0 < channels,
                ;
                assert(earlier[frame] == rows[channel]@.subrange(from, from + count - 1)[frame]);
            } else {
                assert(whole[(count - 1) * channels + channel] == last[channel]);
            }
        }
        assert(channel_of(whole, channels, channel) =~= part);
    }
}

/// What comes out of a resampler is cut at both ends: first as much as is to be dropped, and
/// behind what is expected. Nothing is given out before all that is dropped, and never more
/// than is expected in all.
pub proof fn law_output_is_cut_at_both_ends(trim: OutputTrim, written: int, expected: Option<usize>)
    requires
        0 <= written,
    ensures
        ({
            let lost = dropped(trim, written);
            let given = given_out(trim, written, expected);
            &&& 0 <= lost <= trim.trim_output_frames
            &&& 0 <= given <= written - lost
            &&& lost < trim.trim_output_frames ==> given == 0
            &&& expected is None ==> lost + given == written
            &&& expected matches Some(count) ==> {
                &&& trim.emitted_output_frames <= count ==> trim.emitted_output_frames + given
                    <= count
                &&& lost + given < written ==> trim.emitted_output_frames + given >= count
            }
        }),
{
}

/// A source is done only when all that is expected of it has come out; while it goes on, only
/// whole portions are taken, and at the end what is left.
pub proof fn law_nothing_is_left_behind(
    waiting: int,
    wanted: int,
    expected: Option<usize>,
    emitted: int,
    after_full: bool,
)
    requires
        0 <= waiting <= usize::MAX,
        0 < wanted,
    ensures
        ({
            let step = next_step(waiting, wanted, expected, emitted, after_full);
            &&& step is Full ==> waiting >= wanted
            &&& step matches ResampleStep::Partial(frames) ==> frames == waiting && frames < wanted
                && expected is Some
            &&& step is Done && expected is None ==> waiting < wanted
            &&& step is Done ==> (expected matches Some(count) ==> emitted >= count && (waiting == 0
                || after_full))
            &&& expected is None ==> step is Full == (waiting >= wanted)
        }),
{
}

} // verus!
