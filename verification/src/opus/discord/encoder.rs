//! Samples on their way to packets: they are cut into blocks, and every block becomes a
//! packet.

use super::batch::PacketSink;
use super::config::STEREO_SAMPLES_PER_BLOCK;
use crate::errors::Error;
use vstd::prelude::*;
use vstd::slice::slice_subrange;

verus! {

/// What makes a packet of a block of samples. Nothing is taken for granted of it.
pub trait BlockCodec<T>: Sized {
    /// The packet of a block, and the codec for the next one.
    fn encode_block(self, block: &[T]) -> (Self, Result<Vec<u8>, Error>);
}

/// Whether that is what a codec made of a block.
pub open spec fn block_made<T, C: BlockCodec<T>>(
    before: C,
    after: C,
    block: Seq<T>,
    result: Result<Vec<u8>, Error>,
) -> bool {
    exists|slice: &[T]|
        {
            &&& slice@ == block
            &&& #[trigger] call_ensures(C::encode_block, (before, slice), (after, result))
        }
}

/// Whether a codec made a packet of these bytes of a block.
pub open spec fn packet_made<T, C: BlockCodec<T>>(
    before: C,
    after: C,
    block: Seq<T>,
    row: Seq<u8>,
) -> bool {
    exists|bytes: Vec<u8>|
        bytes@ == row && #[trigger] block_made(before, after, block, Ok::<Vec<u8>, Error>(bytes))
}

/// A block of samples.
pub open spec fn block_at<T>(samples: Seq<T>, at: int) -> Seq<T> {
    samples.subrange(
        at * STEREO_SAMPLES_PER_BLOCK,
        at * STEREO_SAMPLES_PER_BLOCK + STEREO_SAMPLES_PER_BLOCK,
    )
}

/// Whether packets were made of the blocks that samples begin with, one after the other.
pub open spec fn blocks_made<T, C: BlockCodec<T>>(
    codecs: Seq<C>,
    samples: Seq<T>,
    rows: Seq<Seq<u8>>,
) -> bool {
    &&& codecs.len() == rows.len() + 1
    &&& forall|i: int|
        0 <= i < rows.len() ==> packet_made(
            codecs[i],
            codecs[i + 1],
            block_at(samples, i),
            #[trigger] rows[i],
        )
}

/// How many full blocks so many samples are.
pub open spec fn full_blocks(samples: int) -> int {
    samples / STEREO_SAMPLES_PER_BLOCK as int
}

/// The samples behind the full blocks.
pub open spec fn behind_blocks<T>(samples: Seq<T>) -> Seq<T> {
    samples.skip(full_blocks(samples.len() as int) * STEREO_SAMPLES_PER_BLOCK)
}

/// Makes a packet of a block. Where that fails, none is added.
fn encode_one<T, C: BlockCodec<T>, S: PacketSink>(codec: C, block: &[T], sink: &mut S) -> (made: (
    C,
    Result<(), Error>,
))
    ensures
        match made.1 {
            Ok(()) => {
                let rows = final(sink).packets();
                &&& rows == old(sink).packets().push(rows.last())
                &&& packet_made(codec, made.0, block@, rows.last())
            },
            Err(error) => {
                &&& block_made(codec, made.0, block@, Err::<Vec<u8>, Error>(error))
                &&& *final(sink) == *old(sink)
            },
        },
{
    let (next, result) = codec.encode_block(block);
    assert(block_made(codec, next, block@, result));
    match result {
        Ok(bytes) => {
            let written = bytes.len();
            let ghost row = bytes@;
            let write = move |buffer: &mut Vec<u8>| -> (result: Result<usize, Error>)
                ensures
                    result is Ok,
                    final(buffer)@ == row,
            {
                *buffer = bytes;
                Ok(written)
            };
            let added = sink.encode_packet(write);
            assert(packet_made(codec, next, block@, row));
            (next, added)
        },
        Err(error) => (next, Err(error)),
    }
}

/// Cuts samples of two channels into blocks, and has a packet made of each. What does not
/// fill a block waits for more.
pub struct BlockEncoder<T> {
    pending: Vec<T>,
}

impl<T> BlockEncoder<T> {
    #[verifier::type_invariant]
    spec fn one_block_at_most(self) -> bool {
        self.pending@.len() <= STEREO_SAMPLES_PER_BLOCK
    }
}

impl<T: Copy> BlockEncoder<T> {
    /// The samples that wait for more.
    pub closed spec fn waiting(self) -> Seq<T> {
        self.pending@
    }

    pub fn new() -> (encoder: Self)
        ensures
            encoder.waiting() == Seq::<T>::empty(),
    {
        BlockEncoder { pending: Vec::new() }
    }

    /// How many samples of each of the two channels wait.
    pub fn pending_samples_per_channel(&self) -> (count: usize)
        ensures
            count == self.waiting().len() / 2,
    {
        self.pending.len() / 2
    }

    /// What comes of more samples: a packet of every block that they fill, and the rest waits.
    /// Where a block fails, the samples behind it are lost; a block that was begun before
    /// waits as it is.
    pub open spec fn encoded<C: BlockCodec<T>>(
        self,
        after: Self,
        stereo: Seq<T>,
        codec: C,
        next_codec: C,
        old_packets: Seq<Seq<u8>>,
        new_packets: Seq<Seq<u8>>,
        made: Result<usize, Error>,
    ) -> bool {
        let all = self.waiting() + stereo;
        exists|codecs: Seq<C>, rows: Seq<Seq<u8>>|
            {
                &&& #[trigger] blocks_made(codecs, all, rows)
                &&& codecs[0] == codec
                &&& new_packets == old_packets + rows
                &&& match made {
                    Ok(count) => {
                        &&& count == full_blocks(all.len() as int)
                        &&& rows.len() == count
                        &&& codecs.last() == next_codec
                        &&& after.waiting() == behind_blocks(all)
                    },
                    Err(error) => {
                        let failed = rows.len() as int;
                        &&& failed < full_blocks(all.len() as int)
                        &&& block_made(
                            codecs.last(),
                            next_codec,
                            block_at(all, failed),
                            Err::<Vec<u8>, Error>(error),
                        )
                        &&& after.waiting() == (if failed == 0 && self.waiting().len() > 0 {
                            block_at(all, 0)
                        } else {
                            Seq::<T>::empty()
                        })
                    },
                }
            }
    }

    /// What waits, filled up to a block.
    pub open spec fn filled_up(self, silence: T) -> Seq<T> {
        self.waiting() + Seq::new(
            (STEREO_SAMPLES_PER_BLOCK - self.waiting().len()) as nat,
            |i: int| silence,
        )
    }

    /// What comes of the end of the samples: a packet of the block that was begun, filled up.
    /// Where it fails, it waits as it is.
    pub open spec fn finished<C: BlockCodec<T>>(
        self,
        after: Self,
        silence: T,
        codec: C,
        next_codec: C,
        old_packets: Seq<Seq<u8>>,
        new_packets: Seq<Seq<u8>>,
        made: Result<usize, Error>,
    ) -> bool {
        if self.waiting().len() == 0 {
            &&& made == Ok::<usize, Error>(0)
            &&& next_codec == codec
            &&& new_packets == old_packets
            &&& after.waiting() == self.waiting()
        } else {
            match made {
                Ok(count) => {
                    &&& count == 1
                    &&& exists|row: Seq<u8>|
                        {
                            &&& #[trigger] packet_made(
                                codec,
                                next_codec,
                                self.filled_up(silence),
                                row,
                            )
                            &&& new_packets == old_packets.push(row)
                        }
                    &&& after.waiting() == Seq::<T>::empty()
                },
                Err(error) => {
                    &&& block_made(
                        codec,
                        next_codec,
                        self.filled_up(silence),
                        Err::<Vec<u8>, Error>(error),
                    )
                    &&& new_packets == old_packets
                    &&& after.waiting() == self.filled_up(silence)
                },
            }
        }
    }

    fn take_pending(&mut self) -> (pending: Vec<T>)
        ensures
            pending@ == old(self).waiting(),
            pending@.len() <= STEREO_SAMPLES_PER_BLOCK,
            final(self).waiting() == Seq::<T>::empty(),
    {
        proof {
            use_type_invariant(&*self);
        }
        let mut pending: Vec<T> = Vec::new();
        std::mem::swap(&mut pending, &mut self.pending);
        pending
    }

    /// Takes samples, and says how many packets were made. Gives the codec back.
    pub fn encode_stereo<C: BlockCodec<T>, S: PacketSink>(
        &mut self,
        codec: C,
        stereo: &[T],
        sink: &mut S,
    ) -> (made: (C, Result<usize, Error>))
        ensures
            old(self).encoded(
                *final(self),
                stereo@,
                codec,
                made.0,
                old(sink).packets(),
                final(sink).packets(),
                made.1,
            ),
            made.1 matches Ok(count) ==> count <= stereo@.len() / 1_920 + 1,
    {
        let ghost first = self.waiting();
        let ghost all = first + stereo@;
        let ghost packets = sink.packets();
        let ghost mut codecs: Seq<C> = seq![codec];
        let ghost mut rows: Seq<Seq<u8>> = seq![];
        let mut current = codec;
        let mut pending = self.take_pending();
        let len = stereo.len();
        let mut offset: usize = 0;
        let mut made: usize = 0;
        assert(packets =~= packets + rows);
        assert(blocks_made(codecs, all, rows));
        if pending.len() > 0 {
            assert(pending@ =~= all.take(pending@.len() as int));
            while offset < len && pending.len() < STEREO_SAMPLES_PER_BLOCK
                invariant
                    len == stereo@.len(),
                    offset <= len,
                    all == first + stereo@,
                    first.len() + offset == pending@.len(),
                    pending@.len() <= STEREO_SAMPLES_PER_BLOCK,
                    pending@ == all.take(pending@.len() as int),
                decreases len - offset,
            {
                let ghost before = pending@;
                pending.push(stereo[offset]);
                offset = offset + 1;
                assert(all.take(pending@.len() as int) =~= before.push(
                    all[before.len() as int],
                ));
            }
            if pending.len() < STEREO_SAMPLES_PER_BLOCK {
                assert(all.take(all.len() as int) =~= all);
                assert(behind_blocks(all) =~= all);
                self.pending = pending;
                return (current, Ok(0));
            }
            assert(pending@ =~= block_at(all, 0));
            let (next, result) = encode_one(current, pending.as_slice(), sink);
            if let Err(error) = result {
                self.pending = pending;
                assert(sink.packets() =~= packets + rows);
                return (next, Err(error));
            }
            proof {
                let row = sink.packets().last();
                lemma_one_more(codecs, all, rows, next, row);
                codecs = codecs.push(next);
                rows = rows.push(row);
                assert(sink.packets() =~= packets + rows);
            }
            current = next;
            made = 1;
        }
        while len - offset >= STEREO_SAMPLES_PER_BLOCK
            invariant
                len == stereo@.len(),
                offset <= len,
                all == first + stereo@,
                first == old(self).waiting(),
                packets == old(sink).packets(),
                self.waiting() == Seq::<T>::empty(),
                first.len() <= STEREO_SAMPLES_PER_BLOCK,
                first.len() > 0 ==> made >= 1,
                first.len() + offset == made * STEREO_SAMPLES_PER_BLOCK,
                made <= all.len(),
                rows.len() == made,
                blocks_made(codecs, all, rows),
                codecs[0] == codec,
                codecs.last() == current,
                sink.packets() == packets + rows,
            decreases len - offset,
        {
            let end: usize = offset + STEREO_SAMPLES_PER_BLOCK;
            let block = slice_subrange(stereo, offset, end);
            assert(block@ =~= block_at(all, made as int));
            let (next, result) = encode_one(current, block, sink);
            if let Err(error) = result {
                assert(rows.len() < full_blocks(all.len() as int));
                return (next, Err(error));
            }
            proof {
                let row = sink.packets().last();
                lemma_one_more(codecs, all, rows, next, row);
                codecs = codecs.push(next);
                rows = rows.push(row);
                assert(sink.packets() =~= packets + rows);
            }
            current = next;
            made = made + 1;
            offset = end;
        }
        let mut rest: Vec<T> = Vec::new();
        let ghost start = offset;
        while offset < len
            invariant
                len == stereo@.len(),
                start <= offset <= len,
                rest@ == stereo@.subrange(start as int, offset as int),
            decreases len - offset,
        {
            rest.push(stereo[offset]);
            offset = offset + 1;
            assert(rest@ =~= stereo@.subrange(start as int, offset as int));
        }
        assert(rest@ =~= behind_blocks(all));
        self.pending = rest;
        (current, Ok(made))
    }

    /// Fills up the block that samples wait in, and has a packet made of it. Says how many
    /// were made: none where no sample waits. Gives the codec back.
    pub fn finish<C: BlockCodec<T>, S: PacketSink>(&mut self, codec: C, silence: T, sink: &mut S) -> (
    made: (C, Result<usize, Error>))
        ensures
            old(self).finished(
                *final(self),
                silence,
                codec,
                made.0,
                old(sink).packets(),
                final(sink).packets(),
                made.1,
            ),
    {
        let ghost first = self.waiting();
        let mut pending = self.take_pending();
        if pending.len() == 0 {
            assert(self.waiting() =~= first);
            return (codec, Ok(0));
        }
        assert(pending@ =~= first + Seq::new(0, |i: int| silence));
        while pending.len() < STEREO_SAMPLES_PER_BLOCK
            invariant
                first.len() <= pending@.len() <= STEREO_SAMPLES_PER_BLOCK,
                pending@ == first + Seq::new(
                    (pending@.len() - first.len()) as nat,
                    |i: int| silence,
                ),
            decreases STEREO_SAMPLES_PER_BLOCK - pending@.len(),
        {
            pending.push(silence);
            assert(pending@ =~= first + Seq::new(
                (pending@.len() - first.len()) as nat,
                |i: int| silence,
            ));
        }
        assert(pending@ =~= old(self).filled_up(silence));
        match encode_one(codec, pending.as_slice(), sink) {
            (codec, Ok(())) => (codec, Ok(1)),
            (codec, Err(error)) => {
                self.pending = pending;
                (codec, Err(error))
            },
        }
    }
}

proof fn lemma_one_more<T, C: BlockCodec<T>>(
    codecs: Seq<C>,
    samples: Seq<T>,
    rows: Seq<Seq<u8>>,
    next: C,
    row: Seq<u8>,
)
    requires
        blocks_made(codecs, samples, rows),
        packet_made(codecs.last(), next, block_at(samples, rows.len() as int), row),
    ensures
        blocks_made(codecs.push(next), samples, rows.push(row)),
{
    let longer = codecs.push(next);
    let more = rows.push(row);
    assert forall|i: int| 0 <= i < more.len() implies packet_made(
        longer[i],
        longer[i + 1],
        block_at(samples, i),
        #[trigger] more[i],
    ) by {
        if i < rows.len() {
            assert(more[i] == rows[i]);
        }
    }
}

/// Samples that come in two portions make the packets that they make together, and the same
/// rest waits.
pub proof fn law_packets_do_not_depend_on_portions<T>(waiting: Seq<T>, first: Seq<T>, second: Seq<T>)
    ensures
        ({
            let begun = waiting + first;
            let whole = begun + second;
            let next = behind_blocks(begun) + second;
            let count = full_blocks(begun.len() as int);
            &&& count + full_blocks(next.len() as int) == full_blocks(whole.len() as int)
            &&& behind_blocks(next) == behind_blocks(whole)
            &&& forall|i: int|
                0 <= i < count ==> #[trigger] block_at(begun, i) == block_at(whole, i)
            &&& forall|i: int|
                0 <= i < full_blocks(next.len() as int) ==> #[trigger] block_at(next, i)
                    == block_at(whole, count + i)
        }),
{
    let begun = waiting + first;
    let whole = begun + second;
    let next = behind_blocks(begun) + second;
    let count = full_blocks(begun.len() as int);
    assert(next.len() == whole.len() - count * STEREO_SAMPLES_PER_BLOCK);
    assert(behind_blocks(next) =~= behind_blocks(whole));
    assert forall|i: int| 0 <= i < count implies #[trigger] block_at(begun, i) == block_at(
        whole,
        i,
    ) by {
        assert(block_at(begun, i) =~= block_at(whole, i));
    }
    assert forall|i: int| 0 <= i < full_blocks(next.len() as int) implies #[trigger] block_at(
        next,
        i,
    ) == block_at(whole, count + i) by {
        assert(block_at(next, i) =~= block_at(whole, count + i));
    }
}

/// Samples are cut into blocks of 20 ms without anything being lost: the blocks one after the
/// other, and what is behind them, are the samples; and what is behind fills no block.
pub proof fn law_blocks_make_up_the_samples<T>(samples: Seq<T>, i: int)
    requires
        0 <= i < samples.len(),
    ensures
        full_blocks(samples.len() as int) * 1_920 + behind_blocks(samples).len() == samples.len(),
        behind_blocks(samples).len() < 1_920,
        i < full_blocks(samples.len() as int) * 1_920 ==> block_at(samples, i / 1_920).len()
            == 1_920 && block_at(samples, i / 1_920)[i % 1_920] == samples[i],
        i >= full_blocks(samples.len() as int) * 1_920 ==> behind_blocks(samples)[i - full_blocks(
            samples.len() as int,
        ) * 1_920] == samples[i],
{
}

/// At the end the block that was begun is filled up with silence: 20 ms, of which the first
/// are the samples that waited.
pub proof fn law_the_last_block_is_filled_up<T: Copy>(
    encoder: BlockEncoder<T>,
    silence: T,
    i: int,
)
    requires
        encoder.waiting().len() <= 1_920,
        0 <= i < 1_920,
    ensures
        encoder.filled_up(silence).len() == 1_920,
        encoder.filled_up(silence)[i] == (if i < encoder.waiting().len() {
            encoder.waiting()[i]
        } else {
            silence
        }),
{
}

} // verus!
