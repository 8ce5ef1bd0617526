//! Statistics over the last so many samples.

use crate::time::{capped, Duration};
use std::collections::VecDeque;
use vstd::prelude::*;
use vstd::relations::{sorted_by, total_ordering};
use vstd::seq_lib::{lemma_sorted_unique, to_multiset_contains, to_multiset_insert,
    to_multiset_len, to_multiset_remove};

verus! {

pub const DEFAULT_DURATION_STATS_WINDOW: usize = 512;

/// What statistics are made of: values that have a place on a line of numbers.
pub trait Sample: Copy {
    spec fn place(self) -> int;

    proof fn place_is_its_own(self, other: Self)
        ensures
            self.place() == other.place() ==> self == other,
    ;

    fn at_most(self, other: Self) -> (answer: bool)
        ensures
            answer == (self.place() <= other.place()),
    ;
}

impl Sample for u64 {
    open spec fn place(self) -> int {
        self as int
    }

    proof fn place_is_its_own(self, other: u64) {
    }

    fn at_most(self, other: u64) -> (answer: bool) {
        self <= other
    }
}

impl Sample for Duration {
    open spec fn place(self) -> int {
        self.nanos as int
    }

    proof fn place_is_its_own(self, other: Duration) {
    }

    fn at_most(self, other: Duration) -> (answer: bool) {
        self.nanos <= other.nanos
    }
}

pub open spec fn ascending<T: Sample>() -> spec_fn(T, T) -> bool {
    |a: T, b: T| a.place() <= b.place()
}

/// The samples in ascending order.
pub open spec fn in_order<T: Sample>(samples: Seq<T>) -> Seq<T> {
    samples.sort_by(ascending())
}

/// The sample at a percentile: the one at that share of the way from the least to the
/// greatest, rounded down.
pub open spec fn percentile_of<T: Sample>(samples: Seq<T>, percentile: nat) -> Option<T> {
    let rank = (samples.len() - 1) * percentile / 100;
    if samples.len() == 0 || rank >= samples.len() {
        None
    } else {
        Some(in_order(samples)[rank])
    }
}

/// The last samples, as many as fit, with their order at hand.
#[derive(Debug)]
pub struct SlidingStats<T: Sample> {
    order: VecDeque<T>,
    sorted: Vec<T>,
    capacity: usize,
}

/// The samples in the order in which they came.
impl<T: Sample> View for SlidingStats<T> {
    type V = Seq<T>;

    closed spec fn view(&self) -> Seq<T> {
        self.order@
    }
}

proof fn lemma_ascending_is_total<T: Sample>()
    ensures
        total_ordering(ascending::<T>()),
{
    assert forall|a: T, b: T| #[trigger] ascending::<T>()(a, b) && #[trigger] ascending::<T>()(
        b,
        a,
    ) implies a == b by {
        a.place_is_its_own(b);
    }
}

/// A sorted sequence with the same samples is the samples in order.
proof fn lemma_in_order<T: Sample>(samples: Seq<T>, sorted: Seq<T>)
    requires
        sorted_by(sorted, ascending()),
        sorted.to_multiset() == samples.to_multiset(),
    ensures
        sorted == in_order(samples),
        sorted.len() == samples.len(),
{
    lemma_ascending_is_total::<T>();
    samples.lemma_sort_by_ensures(ascending());
    lemma_sorted_unique(sorted, in_order(samples), ascending());
    to_multiset_len(sorted);
    to_multiset_len(samples);
}

/// How many of the sorted samples are at most `value`.
fn count_at_most<T: Sample>(sorted: &Vec<T>, value: T) -> (count: usize)
    requires
        sorted_by(sorted@, ascending()),
    ensures
        count <= sorted@.len(),
        forall|i: int| 0 <= i < count ==> (#[trigger] sorted@[i]).place() <= value.place(),
        forall|i: int| count <= i < sorted@.len() ==> (#[trigger] sorted@[i]).place() > value.place(),
{
    let mut low: usize = 0;
    let mut high: usize = sorted.len();
    while low < high
        invariant
            low <= high <= sorted@.len(),
            sorted_by(sorted@, ascending()),
            forall|i: int| 0 <= i < low ==> (#[trigger] sorted@[i]).place() <= value.place(),
            forall|i: int| high <= i < sorted@.len() ==> (#[trigger] sorted@[i]).place() > value.place(),
        decreases high - low,
    {
        let middle: usize = low + (high - low) / 2;
        if sorted[middle].at_most(value) {
            assert forall|i: int| 0 <= i <= middle implies (#[trigger] sorted@[i]).place() <= value.place() by {
                assert(ascending()(sorted@[i], sorted@[middle as int]));
            }
            low = middle + 1;
        } else {
            assert forall|i: int| middle <= i < sorted@.len() implies (#[trigger] sorted@[i]).place()
                > value.place() by {
                assert(ascending()(sorted@[middle as int], sorted@[i]));
            }
            high = middle;
        }
    }
    low
}

impl<T: Sample> SlidingStats<T> {
    #[verifier::type_invariant]
    spec fn valid(self) -> bool {
        &&& sorted_by(self.sorted@, ascending())
        &&& self.sorted@.to_multiset() == self.order@.to_multiset()
        &&& self.order@.len() <= self.capacity
    }

    pub closed spec fn window(self) -> usize {
        self.capacity
    }

    pub fn new(capacity: usize) -> (stats: Self)
        ensures
            stats@.len() == 0,
            stats.window() == capacity,
    {
        let stats_order: VecDeque<T> = VecDeque::new();
        let stats_sorted: Vec<T> = Vec::new();
        assert(stats_order@ =~= stats_sorted@);
        SlidingStats { order: stats_order, sorted: stats_sorted, capacity }
    }

    /// Takes a sample in; where the window is full, the oldest one goes.
    pub fn observe(&mut self, value: T)
        ensures
            final(self).window() == old(self).window(),
            final(self)@ == (if old(self).window() == 0 {
                old(self)@
            } else if old(self)@.len() == old(self).window() {
                old(self)@.drop_first().push(value)
            } else {
                old(self)@.push(value)
            }),
    {
        proof {
            use_type_invariant(&*self);
        }
        if self.capacity == 0 {
            return;
        }
        let capacity: usize = self.capacity;
        let mut order: VecDeque<T> = VecDeque::new();
        let mut sorted: Vec<T> = Vec::new();
        assert(order@ =~= sorted@);
        let mut rest = SlidingStats { order, sorted, capacity };
        std::mem::swap(self, &mut rest);
        let SlidingStats { order: mut order, sorted: mut sorted, capacity: _ } = rest;
        proof {
            lemma_in_order(order@, sorted@);
        }
        if order.len() == capacity {
            let oldest = order[0];
            let _ = order.pop_front();
            let count: usize = count_at_most(&sorted, oldest);
            proof {
                to_multiset_contains(old(self)@, oldest);
                to_multiset_contains(sorted@, oldest);
                assert(old(self)@[0] == oldest);
                let i = choose|i: int| 0 <= i < sorted@.len() && sorted@[i] == oldest;
                assert(i < count);
                assert(i < count - 1 ==> ascending()(sorted@[i], sorted@[count - 1]));
                sorted@[count - 1].place_is_its_own(oldest);
                to_multiset_remove(sorted@, count - 1);
                to_multiset_remove(old(self)@, 0);
                assert(old(self)@.remove(0) =~= old(self)@.drop_first());
                assert(order@ =~= old(self)@.drop_first());
            }
            let ghost full = sorted@;
            let _ = sorted.remove(count - 1);
            assert(sorted_by(sorted@, ascending())) by {
                assert forall|i: int, j: int| 0 <= i < j < sorted@.len() implies ascending()(
                    sorted@[i],
                    sorted@[j],
                ) by {
                    let a = if i < count - 1 {
                        i
                    } else {
                        i + 1
                    };
                    let b = if j < count - 1 {
                        j
                    } else {
                        j + 1
                    };
                    assert(ascending()(full[a], full[b]));
                }
            }
        }
        let index: usize = count_at_most(&sorted, value);
        let ghost before = sorted@;
        let ghost kept = order@;
        sorted.insert(index, value);
        order.push_back(value);
        proof {
            to_multiset_insert(before, index as int, value);
            to_multiset_insert(kept, kept.len() as int, value);
            assert(kept.insert(kept.len() as int, value) =~= kept.push(value));
            assert(sorted_by(sorted@, ascending())) by {
                assert forall|i: int, j: int| 0 <= i < j < sorted@.len() implies ascending()(
                    sorted@[i],
                    sorted@[j],
                ) by {
                    if i != index && j != index {
                        let a = if i < index {
                            i
                        } else {
                            i - 1
                        };
                        let b = if j < index {
                            j
                        } else {
                            j - 1
                        };
                        assert(ascending()(before[a], before[b]));
                    } else if i == index {
                        assert(before[j - 1].place() > value.place());
                    } else {
                        assert(before[i].place() <= value.place());
                    }
                }
            }
        }
        *self = SlidingStats { order, sorted, capacity };
    }

    /// The sample at a percentile.
    pub fn percentile(&self, percentile: u32) -> (sample: Option<T>)
        ensures
            sample == percentile_of(self@, percentile as nat),
    {
        proof {
            use_type_invariant(self);
            lemma_in_order(self.order@, self.sorted@);
        }
        let len = self.sorted.len();
        if len == 0 {
            return None;
        }
        let span: u128 = (len - 1) as u128;
        assert(span * percentile <= 0xffff_ffff_ffff_ffff * 0xffff_ffff) by (nonlinear_arith)
            requires
                0 <= span <= 0xffff_ffff_ffff_ffff,
                0 <= percentile <= 0xffff_ffff,
        ;
        assert(0 <= span * percentile) by (nonlinear_arith)
            requires
                0 <= span,
                0 <= percentile,
        ;
        let rank: u128 = span * (percentile as u128) / 100;
        if rank < len as u128 {
            Some(self.sorted[rank as usize])
        } else {
            None
        }
    }

    /// The greatest sample.
    pub fn max(&self) -> (sample: Option<T>)
        ensures
            sample == (if self@.len() == 0 {
                None
            } else {
                Some(in_order(self@)[self@.len() - 1])
            }),
    {
        proof {
            use_type_invariant(self);
            lemma_in_order(self.order@, self.sorted@);
        }
        let len = self.sorted.len();
        if len == 0 {
            None
        } else {
            Some(self.sorted[len - 1])
        }
    }

    pub fn len(&self) -> (len: usize)
        ensures
            len == self@.len(),
    {
        self.order.len()
    }

    pub fn is_empty(&self) -> (empty: bool)
        ensures
            empty == (self@.len() == 0),
    {
        self.order.len() == 0
    }

    /// The least sample.
    fn min(&self) -> (sample: Option<T>)
        ensures
            sample == (if self@.len() == 0 {
                None
            } else {
                Some(in_order(self@)[0])
            }),
    {
        proof {
            use_type_invariant(self);
            lemma_in_order(self.order@, self.sorted@);
        }
        if self.sorted.len() == 0 {
            None
        } else {
            Some(self.sorted[0])
        }
    }
}

impl SlidingStats<Duration> {
    /// The sum of the spans, as far as it can be counted.
    fn total(&self) -> (total: Duration)
        ensures
            total == sum(self@),
    {
        let len = self.order.len();
        let mut total = Duration::zero();
        let mut i: usize = 0;
        while i < len
            invariant
                len == self.order@.len(),
                i <= len,
                total == sum(self.order@.take(i as int)),
            decreases len - i,
        {
            assert(self.order@.take(i + 1).drop_last() =~= self.order@.take(i as int));
            total = total.plus(self.order[i]);
            i = i + 1;
        }
        assert(self.order@.take(i as int) =~= self.order@);
        total
    }
}

/// The sum of a row of spans, as far as it can be counted.
pub open spec fn sum(samples: Seq<Duration>) -> Duration
    decreases samples.len(),
{
    if samples.len() == 0 {
        Duration { nanos: 0 }
    } else {
        Duration { nanos: capped(sum(samples.drop_last()).nanos + samples.last().nanos) }
    }
}

/// A share of a span, in as many nanoseconds as 64 bits hold.
pub open spec fn divided(span: Duration, divisor: usize) -> Duration {
    Duration { nanos: (span.nanos / (divisor as u128)) as u64 as u128 }
}

fn duration_div(duration: Duration, divisor: usize) -> (share: Duration)
    requires
        divisor > 0,
    ensures
        share == divided(duration, divisor),
{
    Duration::from_nanos((duration.as_nanos() / (divisor as u128)) as u64)
}

/// What is reported of a row of time spans.
#[derive(Clone, Copy, Debug, PartialEq, Eq, Structural)]
pub struct DurationDistribution {
    pub count: usize,
    pub min: Option<Duration>,
    pub avg: Option<Duration>,
    pub p95: Option<Duration>,
    pub max: Option<Duration>,
}

impl DurationDistribution {
    /// The report of these spans.
    pub open spec fn of(samples: Seq<Duration>) -> DurationDistribution {
        if samples.len() == 0 {
            DurationDistribution { count: 0, min: None, avg: None, p95: None, max: None }
        } else {
            DurationDistribution {
                count: samples.len() as usize,
                min: Some(in_order(samples)[0]),
                avg: Some(divided(sum(samples), samples.len() as usize)),
                p95: percentile_of(samples, 95),
                max: Some(in_order(samples)[samples.len() - 1]),
            }
        }
    }
}

impl Default for DurationDistribution {
    fn default() -> (distribution: Self)
        ensures
            distribution == DurationDistribution::of(seq![]),
    {
        DurationDistribution { count: 0, min: None, avg: None, p95: None, max: None }
    }
}

/// The last time spans of some kind.
#[derive(Debug)]
pub struct DurationStats {
    samples: SlidingStats<Duration>,
}

impl View for DurationStats {
    type V = Seq<Duration>;

    closed spec fn view(&self) -> Seq<Duration> {
        self.samples@
    }
}

/// The last spans when one more comes: where the window is full, the oldest one goes.
pub open spec fn observed(samples: Seq<Duration>, span: Duration) -> Seq<Duration> {
    if samples.len() == DEFAULT_DURATION_STATS_WINDOW {
        samples.drop_first().push(span)
    } else {
        samples.push(span)
    }
}

impl DurationStats {
    #[verifier::type_invariant]
    spec fn of_one_size(self) -> bool {
        self.samples.window() == DEFAULT_DURATION_STATS_WINDOW
    }

    pub fn new() -> (stats: Self)
        ensures
            stats@ == Seq::<Duration>::empty(),
    {
        let stats = DurationStats { samples: SlidingStats::new(DEFAULT_DURATION_STATS_WINDOW) };
        assert(stats@ =~= Seq::<Duration>::empty());
        stats
    }

    /// Takes a span in.
    pub fn observe(&mut self, value: Duration)
        ensures
            final(self)@ == observed(old(self)@, value),
    {
        proof {
            use_type_invariant(&*self);
        }
        let mut samples = SlidingStats::new(DEFAULT_DURATION_STATS_WINDOW);
        std::mem::swap(&mut samples, &mut self.samples);
        samples.observe(value);
        *self = DurationStats { samples };
    }

    /// The report.
    pub fn finish(self) -> (distribution: DurationDistribution)
        ensures
            distribution == DurationDistribution::of(self@),
    {
        let len = self.samples.len();
        if len == 0 {
            return DurationDistribution::default();
        }
        DurationDistribution {
            count: len,
            min: self.samples.min(),
            avg: Some(duration_div(self.samples.total(), len)),
            p95: self.samples.percentile(95),
            max: self.samples.max(),
        }
    }
}

/// The greatest of the samples is a sample, and none is greater; the sample at a
/// percentile up to the hundredth exists, is a sample, and lies between the least and
/// the greatest.
pub proof fn law_percentiles_are_samples<T: Sample>(samples: Seq<T>, percentile: nat)
    requires
        samples.len() > 0,
        percentile <= 100,
    ensures
        percentile_of(samples, percentile) matches Some(sample) && samples.contains(sample)
            && in_order(samples)[0].place() <= sample.place() <= in_order(samples)[samples.len()
            - 1].place(),
        percentile_of(samples, 0) == Some(in_order(samples)[0]),
        percentile_of(samples, 100) == Some(in_order(samples)[samples.len() - 1]),
        forall|i: int|
            0 <= i < samples.len() ==> in_order(samples)[0].place() <= (
            #[trigger] samples[i]).place() <= in_order(samples)[samples.len() - 1].place(),
{
    let sorted = in_order(samples);
    lemma_ascending_is_total::<T>();
    samples.lemma_sort_by_ensures(ascending());
    to_multiset_len(samples);
    to_multiset_len(sorted);
    let span = samples.len() - 1;
    let rank = span * percentile / 100;
    assert(0 <= rank <= span) by (nonlinear_arith)
        requires
            rank == span * percentile / 100,
            0 <= percentile <= 100,
            0 <= span,
    ;
    assert(span * 0 / 100 == 0);
    assert(span * 100 / 100 == span);
    assert(sorted.contains(sorted[rank]));
    if !samples.contains(sorted[rank]) {
        assert(!sorted.contains(sorted[rank]));
    }
    assert(rank > 0 ==> ascending()(sorted[0], sorted[rank]));
    assert(rank < span ==> ascending()(sorted[rank], sorted[span]));
    assert forall|i: int| 0 <= i < samples.len() implies sorted[0].place() <= (
    #[trigger] samples[i]).place() <= sorted[span].place() by {
        to_multiset_contains(samples, samples[i]);
        to_multiset_contains(sorted, samples[i]);
        let j = choose|j: int| 0 <= j < sorted.len() && sorted[j] == samples[i];
        assert(j > 0 ==> ascending()(sorted[0], sorted[j]));
        assert(j < span ==> ascending()(sorted[j], sorted[span]));
    }
}

/// The sample at a percentile stands, in any row of the samples in ascending order, that
/// share of the way from the first to the last, rounded down.
pub proof fn law_percentiles_stand_at_their_share<T: Sample>(
    samples: Seq<T>,
    row: Seq<T>,
    percentile: nat,
    rank: int,
)
    requires
        row.to_multiset() == samples.to_multiset(),
        forall|i: int, j: int|
            0 <= i <= j < row.len() ==> (#[trigger] row[i]).place() <= (#[trigger] row[j]).place(),
        0 <= rank < samples.len(),
        100 * rank <= (samples.len() - 1) * percentile < 100 * (rank + 1),
    ensures
        percentile_of(samples, percentile) == Some(row[rank]),
{
    lemma_ascending_is_total::<T>();
    samples.lemma_sort_by_ensures(ascending());
    assert forall|i: int, j: int| 0 <= i < j < row.len() implies #[trigger] ascending::<T>()(
        row[i],
        row[j],
    ) by {
    }
    vstd::seq_lib::lemma_sorted_unique(row, in_order(samples), ascending());
    let product = (samples.len() - 1) * percentile;
    assert(product / 100 == rank);
}

/// The mean of some spans, as many times as there are, is their sum but for a remainder that
/// is smaller than their count.
pub proof fn law_the_mean_shares_the_sum(samples: Seq<Duration>)
    requires
        0 < samples.len() <= usize::MAX,
        samples.fold_left(0, |sum: int, span: Duration| sum + span.nanos) <= u64::MAX,
    ensures
        ({
            let report = DurationDistribution::of(samples);
            let total = samples.fold_left(0, |sum: int, span: Duration| sum + span.nanos);
            &&& report.count == samples.len()
            &&& report.avg matches Some(mean)
            &&& mean.nanos * samples.len() <= total < (mean.nanos + 1) * samples.len()
        }),
{
    let total = samples.fold_left(0, |sum: int, span: Duration| sum + span.nanos);
    lemma_sum_is_fold(samples);
    let count = samples.len() as int;
    vstd::arithmetic::div_mod::lemma_fundamental_div_mod(total, count);
    vstd::arithmetic::div_mod::lemma_mod_bound(total, count);
    let mean = total / count;
    assert(count * mean == mean * count && (mean + 1) * count == mean * count + count)
        by (nonlinear_arith);
    assert(0 <= mean <= total) by (nonlinear_arith)
        requires
            0 < count,
            0 <= total,
            total == count * mean + total % count,
            0 <= total % count < count,
    ;
}

proof fn lemma_sum_is_fold(samples: Seq<Duration>)
    requires
        samples.fold_left(0, |sum: int, span: Duration| sum + span.nanos) <= u64::MAX,
    ensures
        sum(samples).nanos == samples.fold_left(0, |sum: int, span: Duration| sum + span.nanos),
        0 <= samples.fold_left(0, |sum: int, span: Duration| sum + span.nanos),
    decreases samples.len(),
{
    if samples.len() > 0 {
        lemma_fold_is_positive(samples.drop_last());
        lemma_sum_is_fold(samples.drop_last());
    }
}

proof fn lemma_fold_is_positive(samples: Seq<Duration>)
    ensures
        0 <= samples.fold_left(0, |sum: int, span: Duration| sum + span.nanos),
    decreases samples.len(),
{
    if samples.len() > 0 {
        lemma_fold_is_positive(samples.drop_last());
    }
}

/// The report's least and greatest spans are spans of the row, and every span lies between
/// them.
pub proof fn law_reports_span_the_row(samples: Seq<Duration>, i: int)
    requires
        0 <= i < samples.len(),
    ensures
        ({
            let report = DurationDistribution::of(samples);
            &&& report.min matches Some(least)
            &&& report.max matches Some(greatest)
            &&& samples.contains(least) && samples.contains(greatest)
            &&& least.nanos <= samples[i].nanos <= greatest.nanos
            &&& report.p95 matches Some(high)
            &&& least.nanos <= high.nanos <= greatest.nanos
        }),
{
    law_percentiles_are_samples(samples, 0);
    law_percentiles_are_samples(samples, 95);
    law_percentiles_are_samples(samples, 100);
    assert(in_order(samples)[0].place() <= samples[i].place());
}

/// Of the spans the latest are kept, in order, and never more than the window holds.
pub proof fn law_latest_spans_are_kept(samples: Seq<Duration>, span: Duration)
    requires
        samples.len() <= DEFAULT_DURATION_STATS_WINDOW,
    ensures
        ({
            let after = observed(samples, span);
            &&& after.last() == span
            &&& after.len() == (if samples.len() < DEFAULT_DURATION_STATS_WINDOW {
                samples.len() + 1
            } else {
                samples.len()
            })
            &&& after.drop_last() == samples.skip(samples.len() + 1 - after.len())
        }),
{
    let after = observed(samples, span);
    assert(after.drop_last() =~= samples.skip(samples.len() + 1 - after.len()));
}

} // verus!
