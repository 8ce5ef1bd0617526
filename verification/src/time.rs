//! Time on plain numbers: spans in nanoseconds, and readings of one monotonic clock.
//!
//! The application reads the clock; the rules in this crate only compare and add.

use vstd::prelude::*;

verus! {

pub const NANOS_PER_MILLI: u128 = 1_000_000;

pub const NANOS_PER_MICRO: u128 = 1_000;

pub const NANOS_PER_SEC: u128 = 1_000_000_000;

/// A span of time. Every span of whole seconds that fit in 64 bits, and more nanoseconds,
/// can be held.
#[derive(Clone, Copy, Debug, PartialEq, Eq, PartialOrd, Ord, Hash, Structural)]
pub struct Duration {
    pub nanos: u128,
}

/// A reading of the clock: the nanoseconds since its origin.
#[derive(Clone, Copy, Debug, PartialEq, Eq, PartialOrd, Ord, Hash, Structural)]
pub struct Instant {
    pub nanos: u128,
}

/// `n`, or the largest number of nanoseconds there is.
pub open spec fn capped(n: int) -> u128 {
    if n > u128::MAX {
        u128::MAX
    } else {
        n as u128
    }
}

/// `n`, or the largest number of 64 bits.
pub open spec fn capped_64(n: int) -> u64 {
    if n > u64::MAX {
        u64::MAX
    } else {
        n as u64
    }
}

fn cap_64(n: u128) -> (capped: u64)
    ensures
        capped == capped_64(n as int),
{
    if n > u64::MAX as u128 {
        u64::MAX
    } else {
        n as u64
    }
}

impl Duration {
    pub open spec fn millis(millis: u64) -> Duration {
        Duration { nanos: (millis * 1_000_000) as u128 }
    }

    pub open spec fn secs(secs: u64) -> Duration {
        Duration { nanos: (secs * 1_000_000_000) as u128 }
    }

    /// The whole microseconds, as far as 64 bits count.
    pub open spec fn in_us(self) -> u64 {
        capped_64(self.nanos as int / 1_000)
    }

    /// The whole milliseconds, as far as 64 bits count.
    pub open spec fn in_ms(self) -> u64 {
        capped_64(self.nanos as int / 1_000_000)
    }

    /// The whole seconds, as far as 64 bits count.
    pub open spec fn in_secs(self) -> u64 {
        capped_64(self.nanos as int / 1_000_000_000)
    }

    /// The nanoseconds beyond the whole seconds.
    pub open spec fn beyond_secs(self) -> u32 {
        (self.nanos % 1_000_000_000) as u32
    }

    /// The span of so many seconds and nanoseconds.
    pub fn new(secs: u64, nanos: u32) -> (span: Self)
        ensures
            span.nanos == secs * 1_000_000_000 + nanos,
    {
        Duration { nanos: (secs as u128) * NANOS_PER_SEC + (nanos as u128) }
    }

    pub fn zero() -> (span: Self)
        ensures
            span.nanos == 0,
    {
        Duration { nanos: 0 }
    }

    pub fn from_nanos(nanos: u64) -> (span: Self)
        ensures
            span.nanos == nanos,
    {
        Duration { nanos: nanos as u128 }
    }

    pub fn from_millis(millis: u64) -> (span: Self)
        ensures
            span == Duration::millis(millis),
    {
        Duration { nanos: (millis as u128) * NANOS_PER_MILLI }
    }

    pub fn from_secs(secs: u64) -> (span: Self)
        ensures
            span == Duration::secs(secs),
    {
        Duration { nanos: (secs as u128) * NANOS_PER_SEC }
    }

    pub fn as_nanos(self) -> (nanos: u128)
        ensures
            nanos == self.nanos,
    {
        self.nanos
    }

    pub fn as_secs(self) -> (secs: u64)
        ensures
            secs == self.in_secs(),
    {
        cap_64(self.nanos / NANOS_PER_SEC)
    }

    pub fn subsec_nanos(self) -> (nanos: u32)
        ensures
            nanos == self.beyond_secs(),
            nanos < 1_000_000_000,
    {
        (self.nanos % NANOS_PER_SEC) as u32
    }

    pub fn is_zero(self) -> (zero: bool)
        ensures
            zero == (self.nanos == 0),
    {
        self.nanos == 0
    }

    /// The sum, or the longest span there is.
    pub fn plus(self, other: Duration) -> (sum: Duration)
        ensures
            sum.nanos == capped(self.nanos + other.nanos),
    {
        Duration { nanos: self.nanos.saturating_add(other.nanos) }
    }

    /// The longer of the two.
    pub fn longer(self, other: Duration) -> (span: Duration)
        ensures
            span == (if self.nanos >= other.nanos {
                self
            } else {
                other
            }),
    {
        if self.nanos >= other.nanos {
            self
        } else {
            other
        }
    }
}

pub fn duration_us(duration: Duration) -> (micros: u64)
    ensures
        micros == duration.in_us(),
{
    cap_64(duration.nanos / NANOS_PER_MICRO)
}

pub fn duration_ms(duration: Duration) -> (millis: u64)
    ensures
        millis == duration.in_ms(),
{
    cap_64(duration.nanos / NANOS_PER_MILLI)
}

impl Instant {
    /// The reading `span` later, or the last one that the clock can give.
    pub open spec fn later(self, span: Duration) -> Instant {
        Instant { nanos: capped(self.nanos + span.nanos) }
    }

    /// The time from `earlier` to `self`; none where `earlier` is not earlier.
    pub open spec fn elapsed_since(self, earlier: Instant) -> Duration {
        Duration {
            nanos: if self.nanos >= earlier.nanos {
                (self.nanos - earlier.nanos) as u128
            } else {
                0
            },
        }
    }

    pub fn from_nanos(nanos: u128) -> (reading: Self)
        ensures
            reading == (Instant { nanos }),
    {
        Instant { nanos }
    }

    pub fn as_nanos(self) -> (nanos: u128)
        ensures
            nanos == self.nanos,
    {
        self.nanos
    }

    pub fn plus(self, span: Duration) -> (reading: Instant)
        ensures
            reading == self.later(span),
    {
        Instant { nanos: self.nanos.saturating_add(span.nanos) }
    }

    pub fn since(self, earlier: Instant) -> (span: Duration)
        ensures
            span == self.elapsed_since(earlier),
    {
        Duration { nanos: self.nanos.saturating_sub(earlier.nanos) }
    }

    /// Whether `self` is `deadline` or later.
    pub fn reached(self, deadline: Instant) -> (reached: bool)
        ensures
            reached == (self.nanos >= deadline.nanos),
    {
        self.nanos >= deadline.nanos
    }
}

/// The earlier of two deadlines, either of which may be missing.
pub open spec fn earlier_of(a: Option<Instant>, b: Option<Instant>) -> Option<Instant> {
    match (a, b) {
        (None, None) => None,
        (Some(x), None) => Some(x),
        (None, Some(y)) => Some(y),
        (Some(x), Some(y)) => if y.nanos < x.nanos {
            Some(y)
        } else {
            Some(x)
        },
    }
}

pub fn earlier_deadline(a: Option<Instant>, b: Option<Instant>) -> (deadline: Option<Instant>)
    ensures
        deadline == earlier_of(a, b),
{
    match (a, b) {
        (None, None) => None,
        (Some(x), None) => Some(x),
        (None, Some(y)) => Some(y),
        (Some(x), Some(y)) => if y.nanos < x.nanos {
            Some(y)
        } else {
            Some(x)
        },
    }
}

/// Time adds up: so much later, so much has passed, as long as the clock goes on; and never
/// less than nothing has passed.
pub proof fn law_time_adds_up(now: Instant, span: Duration, other: Instant)
    requires
        now.nanos + span.nanos <= u128::MAX,
    ensures
        now.later(span).elapsed_since(now) == span,
        other.nanos <= now.nanos ==> other.later(now.elapsed_since(other)) == now,
        now.nanos <= other.nanos ==> now.elapsed_since(other).nanos == 0,
{
}

/// A span of so many units is so many units long, and of every other span the whole units
/// are counted.
pub proof fn law_units_are_counted(n: u64, span: Duration)
    requires
        span.nanos <= u64::MAX,
    ensures
        Duration::millis(n).in_ms() == n,
        Duration::secs(n).in_secs() == n,
        Duration::secs(n).beyond_secs() == 0,
        n <= u64::MAX / 1_000 ==> Duration::secs(n).in_ms() == 1_000 * n && Duration::millis(
            n,
        ).in_us() == 1_000 * n,
        span.in_us() * 1_000 <= span.nanos < (span.in_us() + 1) * 1_000,
        span.in_ms() * 1_000 <= span.in_us() < (span.in_ms() + 1) * 1_000,
        span.in_secs() * 1_000 <= span.in_ms() < (span.in_secs() + 1) * 1_000,
        span.in_secs() * 1_000_000_000 + span.beyond_secs() == span.nanos,
{
}

/// The earlier of two deadlines is one of them, and neither is before it; there is one as
/// soon as there is either.
pub proof fn law_the_earlier_comes_first(a: Option<Instant>, b: Option<Instant>)
    ensures
        earlier_of(a, b) == a || earlier_of(a, b) == b,
        a matches Some(x) ==> (earlier_of(a, b) matches Some(first) && first.nanos <= x.nanos),
        b matches Some(y) ==> (earlier_of(a, b) matches Some(first) && first.nanos <= y.nanos),
        earlier_of(a, b) == earlier_of(b, a),
{
}

} // verus!
