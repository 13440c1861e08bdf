//! What a calibration makes of the samples it took.

use vstd::prelude::*;

verus! {

/// How much of a full count the samples may differ by default: one twentieth.
pub const DEFAULT_MOTION_DETECTION_THRESHOLD_DIVISOR: i16 = 20;

/// The sum of samples.
pub open spec fn total(samples: Seq<i16>) -> int
    decreases samples.len(),
{
    if samples.len() == 0 {
        0
    } else {
        total(samples.drop_last()) + samples.last()
    }
}

/// `a / b`, rounded toward zero.
pub open spec fn quotient(a: int, b: int) -> int {
    if (a >= 0) == (b >= 0) {
        magnitude(a) / magnitude(b)
    } else {
        -(magnitude(a) / magnitude(b))
    }
}

/// The number without its sign.
pub open spec fn magnitude(a: int) -> int {
    if a < 0 {
        -a
    } else {
        a
    }
}

/// The nearest number that an `i16` holds.
pub open spec fn clamp16(value: int) -> i16 {
    if value < i16::MIN {
        i16::MIN
    } else if value > i16::MAX {
        i16::MAX
    } else {
        value as i16
    }
}

/// The average of samples, rounded toward zero.
pub open spec fn average(samples: Seq<i16>) -> i16 {
    quotient(total(samples), samples.len() as int) as i16
}

/// Two samples differ by more than `limit`.
pub open spec fn spread_over(samples: Seq<i16>, limit: int) -> bool {
    exists|i: int, j: int|
        0 <= i < samples.len() && 0 <= j < samples.len() && #[trigger] samples[i]
            - #[trigger] samples[j] > limit
}

/// How far two samples may differ.
pub open spec fn motion_limit(sensitivity: i16, divisor: i16) -> int {
    quotient(sensitivity as int, divisor as int)
}

/// One sample of the three axes.
#[derive(Debug, Clone, Copy, PartialEq, Eq, Structural)]
pub struct Sample {
    /// X axis.
    pub x: i16,
    /// Y axis.
    pub y: i16,
    /// Z axis.
    pub z: i16,
}

/// The X axis of samples.
pub open spec fn xs(samples: Seq<Sample>) -> Seq<i16> {
    Seq::new(samples.len(), |i: int| samples[i].x)
}

/// The Y axis of samples.
pub open spec fn ys(samples: Seq<Sample>) -> Seq<i16> {
    Seq::new(samples.len(), |i: int| samples[i].y)
}

/// The Z axis of samples.
pub open spec fn zs(samples: Seq<Sample>) -> Seq<i16> {
    Seq::new(samples.len(), |i: int| samples[i].z)
}

/// On some axis two samples differ by more than `limit`: the device moved.
pub open spec fn moving(samples: Seq<Sample>, limit: int) -> bool {
    ||| spread_over(xs(samples), limit)
    ||| spread_over(ys(samples), limit)
    ||| spread_over(zs(samples), limit)
}

/// Samples that differ too much for one limit do so for every smaller one.
pub proof fn smaller_limit_is_stricter(samples: Seq<Sample>, limit: int, smaller: int)
    requires
        smaller <= limit,
        moving(samples, limit),
    ensures
        moving(samples, smaller),
{
    if spread_over(xs(samples), limit) {
        lemma_spread_over(xs(samples), limit, smaller);
    } else if spread_over(ys(samples), limit) {
        lemma_spread_over(ys(samples), limit, smaller);
    } else {
        lemma_spread_over(zs(samples), limit, smaller);
    }
}

proof fn lemma_spread_over(samples: Seq<i16>, limit: int, smaller: int)
    requires
        smaller <= limit,
        spread_over(samples, limit),
    ensures
        spread_over(samples, smaller),
{
    let (i, j) = choose|i: int, j: int|
        0 <= i < samples.len() && 0 <= j < samples.len() && #[trigger] samples[i]
            - #[trigger] samples[j] > limit;
    assert(samples[i] - samples[j] > smaller);
}

/// Samples that are all the same show no motion, whatever the tolerance.
pub proof fn stillness_is_not_motion(samples: Seq<Sample>, limit: int)
    requires
        limit >= 0,
        forall|i: int, j: int|
            0 <= i < samples.len() && 0 <= j < samples.len() ==> #[trigger] samples[i]
                == #[trigger] samples[j],
    ensures
        !moving(samples, limit),
{
    assert forall|i: int, j: int|
        0 <= i < samples.len() && 0 <= j < samples.len() implies #[trigger] xs(samples)[i]
        == #[trigger] xs(samples)[j] by {
        assert(samples[i] == samples[j]);
    }
    assert forall|i: int, j: int|
        0 <= i < samples.len() && 0 <= j < samples.len() implies #[trigger] ys(samples)[i]
        == #[trigger] ys(samples)[j] by {
        assert(samples[i] == samples[j]);
    }
    assert forall|i: int, j: int|
        0 <= i < samples.len() && 0 <= j < samples.len() implies #[trigger] zs(samples)[i]
        == #[trigger] zs(samples)[j] by {
        assert(samples[i] == samples[j]);
    }
}

/// The average of samples of an `i16` is an `i16`, whatever the samples: no
/// calibration can overflow.
pub proof fn average_in_range(samples: Seq<i16>)
    requires
        samples.len() > 0,
    ensures
        i16::MIN <= quotient(total(samples), samples.len() as int) <= i16::MAX,
        average(samples) == quotient(total(samples), samples.len() as int),
{
    lemma_total_bounds(samples);
    lemma_quotient_bounds(total(samples), samples.len() as int);
}

/// The average of samples lies between the least and the greatest of them.
pub proof fn average_between(samples: Seq<i16>, low: i16, high: i16)
    requires
        samples.len() > 0,
        forall|i: int| 0 <= i < samples.len() ==> low <= #[trigger] samples[i] <= high,
    ensures
        low <= average(samples) <= high,
    decreases samples.len(),
{
    average_in_range(samples);
    lemma_total_between(samples, low, high);
    let n = samples.len() as int;
    let t = total(samples);
    assert(low <= quotient(t, n) <= high) by (nonlinear_arith)
        requires
            n > 0,
            low * n <= t <= high * n,
    {
        if t >= 0 {
            assert(t / n <= high);
            assert(low <= t / n);
        } else {
            assert((-t) / n <= -low);
            assert(-high <= (-t) / n);
        }
    }
}

/// Samples that are all the same average to that value.
pub proof fn average_of_constant(samples: Seq<i16>, value: i16)
    requires
        samples.len() > 0,
        forall|i: int| 0 <= i < samples.len() ==> #[trigger] samples[i] == value,
    ensures
        average(samples) == value,
{
    average_between(samples, value, value);
}

proof fn lemma_total_between(samples: Seq<i16>, low: i16, high: i16)
    requires
        forall|i: int| 0 <= i < samples.len() ==> low <= #[trigger] samples[i] <= high,
    ensures
        low * samples.len() <= total(samples) <= high * samples.len(),
    decreases samples.len(),
{
    let n = samples.len() as int;
    if n > 0 {
        lemma_total_between(samples.drop_last(), low, high);
        assert(low * n == low * (n - 1) + low) by (nonlinear_arith);
        assert(high * n == high * (n - 1) + high) by (nonlinear_arith);
    } else {
        assert(low * n == 0 && high * n == 0) by (nonlinear_arith)
            requires
                n == 0,
        ;
    }
}

proof fn lemma_total_bounds(samples: Seq<i16>)
    ensures
        -32768 * samples.len() <= total(samples) <= 32767 * samples.len(),
    decreases samples.len(),
{
    if samples.len() > 0 {
        lemma_total_bounds(samples.drop_last());
    }
}

proof fn lemma_quotient_bounds(sum: int, n: int)
    requires
        n > 0,
        -32768 * n <= sum <= 32767 * n,
    ensures
        -32768 <= quotient(sum, n) <= 32767,
{
    assert(-32768 <= quotient(sum, n) <= 32767) by (nonlinear_arith)
        requires
            n > 0,
            -32768 * n <= sum <= 32767 * n,
    {
        if sum >= 0 {
            assert(sum / n <= 32767);
        } else {
            assert((-sum) / n <= 32768);
        }
    }
}

/// What is kept of the samples of one axis.
pub(crate) struct Tally {
    /// Their sum.
    pub sum: i64,
    /// The least, or the greatest `i16` before the first.
    pub min: i16,
    /// The greatest, or the least `i16` before the first.
    pub max: i16,
}

impl Tally {
    /// What is kept is that of `samples`.
    pub closed spec fn keeps(self, samples: Seq<i16>) -> bool {
        &&& self.sum == total(samples)
        &&& forall|i: int| 0 <= i < samples.len() ==> self.min <= #[trigger] samples[i] <= self.max
        &&& samples.len() == 0 ==> self.min == i16::MAX && self.max == i16::MIN
        &&& samples.len() > 0 ==> samples.contains(self.min) && samples.contains(self.max)
    }

    /// No samples yet.
    pub fn new() -> (tally: Self)
        ensures
            tally.keeps(Seq::empty()),
    {
        Tally { sum: 0, min: i16::MAX, max: i16::MIN }
    }

    /// Adds a sample.
    pub fn count(&mut self, value: i16, samples: Ghost<Seq<i16>>)
        requires
            old(self).keeps(samples@),
            samples@.len() < 65535,
        ensures
            final(self).keeps(samples@.push(value)),
    {
        let ghost then = samples@.push(value);
        proof {
            lemma_total_bounds(samples@);
            assert(then.drop_last() =~= samples@);
        }
        self.sum += value as i64;
        if value < self.min {
            self.min = value;
        }
        if value > self.max {
            self.max = value;
        }
        proof {
            assert(then[then.len() - 1] == value);
            assert forall|v: i16| samples@.contains(v) implies #[trigger] then.contains(v) by {
                let i = choose|i: int| 0 <= i < samples@.len() && samples@[i] == v;
                assert(then[i] == v);
            }
        }
    }

    /// Whether two samples differ by more than `limit`.
    pub fn spread_over(&self, limit: i32, samples: Ghost<Seq<i16>>) -> (over: bool)
        requires
            self.keeps(samples@),
            samples@.len() > 0,
        ensures
            over == spread_over(samples@, limit as int),
    {
        let over = (self.max as i32) - (self.min as i32) > limit;
        proof {
            let high = choose|i: int| 0 <= i < samples@.len() && samples@[i] == self.max;
            let low = choose|i: int| 0 <= i < samples@.len() && samples@[i] == self.min;
            assert(samples@[high] - samples@[low] == self.max - self.min);
        }
        over
    }

    /// The average of the samples, of which there are `count`.
    pub fn average(&self, count: u16, samples: Ghost<Seq<i16>>) -> (value: i16)
        requires
            self.keeps(samples@),
            0 < samples@.len() == count,
        ensures
            value == average(samples@),
    {
        proof {
            lemma_total_bounds(samples@);
            average_in_range(samples@);
        }
        let count: i64 = count as i64;
        if self.sum >= 0 {
            (self.sum / count) as i16
        } else {
            (-((-self.sum) / count)) as i16
        }
    }
}

/// What is kept of the samples of the three axes.
pub(crate) struct Tallies {
    x: Tally,
    y: Tally,
    z: Tally,
}

impl Tallies {
    /// What is kept is that of `samples`.
    pub closed spec fn keeps(self, samples: Seq<Sample>) -> bool {
        &&& self.x.keeps(xs(samples))
        &&& self.y.keeps(ys(samples))
        &&& self.z.keeps(zs(samples))
    }

    /// No samples yet.
    pub fn new() -> (tallies: Self)
        ensures
            tallies.keeps(Seq::empty()),
    {
        assert(xs(Seq::empty()) =~= Seq::empty());
        assert(ys(Seq::empty()) =~= Seq::empty());
        assert(zs(Seq::empty()) =~= Seq::empty());
        Tallies { x: Tally::new(), y: Tally::new(), z: Tally::new() }
    }

    /// Adds a sample.
    pub fn count(&mut self, sample: Sample, samples: Ghost<Seq<Sample>>)
        requires
            old(self).keeps(samples@),
            samples@.len() < 65535,
        ensures
            final(self).keeps(samples@.push(sample)),
    {
        let ghost then = samples@.push(sample);
        assert(xs(then) =~= xs(samples@).push(sample.x));
        assert(ys(then) =~= ys(samples@).push(sample.y));
        assert(zs(then) =~= zs(samples@).push(sample.z));
        self.x.count(sample.x, Ghost(xs(samples@)));
        self.y.count(sample.y, Ghost(ys(samples@)));
        self.z.count(sample.z, Ghost(zs(samples@)));
    }

    /// Whether the device moved.
    pub fn moving(&self, limit: i32, samples: Ghost<Seq<Sample>>) -> (moving: bool)
        requires
            self.keeps(samples@),
            samples@.len() > 0,
        ensures
            moving == crate::calibration::moving(samples@, limit as int),
    {
        self.x.spread_over(limit, Ghost(xs(samples@))) || self.y.spread_over(
            limit,
            Ghost(ys(samples@)),
        ) || self.z.spread_over(limit, Ghost(zs(samples@)))
    }

    /// The average of the samples, of which there are `count`.
    pub fn average(&self, count: u16, samples: Ghost<Seq<Sample>>) -> (sample: Sample)
        requires
            self.keeps(samples@),
            0 < samples@.len() == count,
        ensures
            sample.x == average(xs(samples@)),
            sample.y == average(ys(samples@)),
            sample.z == average(zs(samples@)),
    {
        Sample {
            x: self.x.average(count, Ghost(xs(samples@))),
            y: self.y.average(count, Ghost(ys(samples@))),
            z: self.z.average(count, Ghost(zs(samples@))),
        }
    }
}

/// How far two samples may differ.
pub(crate) fn limit_of(sensitivity: i16, divisor: i16) -> (limit: i32)
    requires
        sensitivity > 0,
        divisor != 0,
    ensures
        limit == motion_limit(sensitivity, divisor),
{
    if divisor > 0 {
        (sensitivity as i32) / (divisor as i32)
    } else {
        let size: i32 = -(divisor as i32);
        let limit: i32 = (sensitivity as i32) / size;
        assert(limit <= sensitivity) by (nonlinear_arith)
            requires
                limit == (sensitivity as int) / (size as int),
                size >= 1,
                sensitivity > 0,
        ;
        -limit
    }
}

} // verus!
