//! Samples one after the other, in one channel or two.

use vstd::prelude::*;

verus! {

/// Rows one after the other.
pub open spec fn in_a_row<T>(rows: Seq<Seq<T>>) -> Seq<T>
    decreases rows.len(),
{
    if rows.len() == 0 {
        seq![]
    } else {
        in_a_row(rows.drop_last()) + rows.last()
    }
}

/// Every sample twice, once for each of two channels.
pub open spec fn twice<T>(samples: Seq<T>) -> Seq<T> {
    Seq::new(2 * samples.len(), |i: int| samples[i / 2])
}

/// One channel as two.
pub fn append_stereo_interleaved<T: Copy>(samples: &[T], output: &mut Vec<T>)
    ensures
        final(output)@ == old(output)@ + twice(samples@),
{
    let ghost first = output@;
    let len = samples.len();
    let mut i: usize = 0;
    assert(output@ =~= first + twice(samples@.take(0)));
    while i < len
        invariant
            len == samples@.len(),
            i <= len,
            output@ == first + twice(samples@.take(i as int)),
        decreases len - i,
    {
        output.push(samples[i]);
        output.push(samples[i]);
        i = i + 1;
        assert(output@ =~= first + twice(samples@.take(i as int)));
    }
    assert(samples@.take(i as int) =~= samples@);
}

/// One channel goes to both: of two channels made so, each holds the samples as they were.
pub proof fn law_both_channels_hold_the_samples<T>(samples: Seq<T>, frame: int)
    requires
        0 <= frame < samples.len(),
    ensures
        twice(samples).len() == 2 * samples.len(),
        twice(samples)[2 * frame] == samples[frame],
        twice(samples)[2 * frame + 1] == samples[frame],
{
}

/// Rows one after the other are as long as all of them, and each stands behind those before
/// it.
pub proof fn law_rows_stand_in_turn<T>(rows: Seq<Seq<T>>, at: int)
    requires
        0 <= at < rows.len(),
    ensures
        in_a_row(rows) == in_a_row(rows.take(at)) + rows[at] + in_a_row(rows.skip(at + 1)),
        in_a_row(rows.take(1)) == rows[0],
    decreases rows.len(),
{
    let one = rows.take(1);
    assert(one.drop_last() =~= Seq::<Seq<T>>::empty());
    assert(in_a_row(one) == in_a_row(Seq::<Seq<T>>::empty()) + rows[0]);
    assert(in_a_row(one) =~= rows[0]);
    let last = rows.last();
    let before = rows.drop_last();
    if at == rows.len() - 1 {
        assert(rows.take(at) =~= before);
        assert(rows.skip(at + 1) =~= seq![]);
        assert(in_a_row(rows) =~= in_a_row(rows.take(at)) + rows[at] + in_a_row(
            rows.skip(at + 1),
        ));
    } else {
        law_rows_stand_in_turn(before, at);
        assert(before.take(at) =~= rows.take(at));
        assert(before.skip(at + 1) =~= rows.skip(at + 1).drop_last());
        assert(rows.skip(at + 1).last() == last);
        assert(in_a_row(rows) =~= in_a_row(rows.take(at)) + rows[at] + in_a_row(
            rows.skip(at + 1),
        ));
    }
}

} // verus!
