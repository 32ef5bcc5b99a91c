use vstd::prelude::*;

verus! {

/// Number of interval boundaries crossed when `elapsed` time passes on a
/// countdown that had `remaining` left: the count of `k >= 0` with
/// `remaining + k * interval < elapsed`.
pub open spec fn crossings(remaining: int, interval: int, elapsed: int) -> int {
    if elapsed <= remaining {
        0
    } else {
        (elapsed - remaining - 1) / interval + 1
    }
}

/// Countdown that fires once per interval boundary crossed; an overshoot is
/// carried into the next interval rather than dropped.
#[derive(Clone, Copy, Debug, PartialEq, Eq, Structural)]
pub struct SpawnTimer {
    pub remaining: u64,
    pub interval: u64,
}

impl SpawnTimer {
    /// The timer that `new(interval)` makes.
    pub open spec fn new_spec(interval: u64) -> SpawnTimer {
        SpawnTimer { remaining: interval, interval }
    }

    pub open spec fn wf(&self) -> bool {
        0 < self.interval && self.remaining <= self.interval
    }

    /// A timer whose first firing is one full interval away.
    pub fn new(interval: u64) -> (r: SpawnTimer)
        requires
            interval > 0,
        ensures
            r.wf(),
            r.interval == interval,
            r.remaining == interval,
            r == SpawnTimer::new_spec(interval),
    {
        SpawnTimer { remaining: interval, interval }
    }

    /// Count `dt` down and return how many boundaries were crossed; the
    /// interval is added back once per boundary.
    pub fn tick(&mut self, dt: u64) -> (n: u64)
        requires
            old(self).wf(),
        ensures
            final(self).wf(),
            final(self).interval == old(self).interval,
            n == crossings(old(self).remaining as int, old(self).interval as int, dt as int),
            final(self).remaining == old(self).remaining + n * old(self).interval - dt,
            dt == 0 ==> n == 0 && *final(self) == *old(self),
    {
        if dt <= self.remaining {
            self.remaining = self.remaining - dt;
            0
        } else {
            let m: u64 = dt - self.remaining - 1;
            let i = self.interval;
            let n: u64 = m / i + 1;
            let r = self.remaining;
            proof {
                lemma_overshoot(r as int, i as int, dt as int);
            }
            self.remaining = i - 1 - m % i;
            n
        }
    }
}

proof fn lemma_overshoot(r: int, i: int, dt: int)
    requires
        0 <= r < dt,
        0 < i,
    ensures
        0 <= i - 1 - (dt - r - 1) % i < i,
        i - 1 - (dt - r - 1) % i == r + ((dt - r - 1) / i + 1) * i - dt,
        ((dt - r - 1) / i + 1) * i <= dt - r - 1 + i,
{
    let m = dt - r - 1;
    assert(m == (m / i) * i + m % i) by (nonlinear_arith)
        requires 0 <= m, 0 < i;
    assert(0 <= m % i < i) by (nonlinear_arith)
        requires 0 <= m, 0 < i;
    assert((m / i + 1) * i == (m / i) * i + i) by (nonlinear_arith);
}


/// Total time of a sequence of tick lengths.
pub open spec fn total(dts: Seq<int>) -> int
    decreases dts.len(),
{
    if dts.len() == 0 {
        0
    } else {
        dts[0] + total(dts.drop_first())
    }
}

/// Firings of a timer with `remaining` left when ticked by each of `dts` in
/// turn, each tick behaving as `SpawnTimer::tick`.
pub open spec fn fired(remaining: int, interval: int, dts: Seq<int>) -> int
    decreases dts.len(),
{
    if dts.len() == 0 {
        0
    } else {
        let n = crossings(remaining, interval, dts[0]);
        n + fired(remaining + n * interval - dts[0], interval, dts.drop_first())
    }
}

/// `n` is the crossing count exactly when it leaves the countdown
/// non-negative and, if it fired at all, below one interval.
proof fn lemma_crossings_unique(r: int, i: int, t: int, n: int)
    requires
        0 <= r,
        0 < i,
        0 <= t,
        0 <= n,
        r + n * i - t >= 0,
        n == 0 || r + n * i - t < i,
    ensures
        n == crossings(r, i, t),
{
    let c = crossings(r, i, t);
    if t <= r {
        if n > 0 {
            assert(r + (n - 1) * i - t >= 0) by (nonlinear_arith)
                requires t <= r, n >= 1, i > 0;
            assert(r + n * i - t >= i) by (nonlinear_arith)
                requires r + (n - 1) * i - t >= 0;
        }
    } else {
        lemma_overshoot(r, i, t);
        let m = t - r - 1;
        assert(0 <= m / i) by (nonlinear_arith)
            requires 0 <= m, 0 < i;
        if n < c {
            assert(n * i <= (c - 1) * i) by (nonlinear_arith)
                requires n <= c - 1, 0 < i;
            assert((c - 1) * i == (m / i) * i);
            assert(m == (m / i) * i + m % i) by (nonlinear_arith)
                requires 0 <= m, 0 < i;
            assert(0 <= m % i) by (nonlinear_arith)
                requires 0 <= m, 0 < i;
        } else if n > c {
            assert(c >= 1);
            assert(n > 0);
            assert((n - 1) * i >= c * i) by (nonlinear_arith)
                requires n - 1 >= c, 0 < i;
            assert(n * i == (n - 1) * i + i) by (nonlinear_arith);
        }
    }
}

proof fn lemma_crossings_facts(r: int, i: int, t: int)
    requires
        0 <= r,
        0 < i,
        0 <= t,
    ensures
        0 <= crossings(r, i, t),
        r + crossings(r, i, t) * i - t >= 0,
        crossings(r, i, t) == 0 || r + crossings(r, i, t) * i - t < i,
        crossings(r, i, t) == 0 ==> t <= r,
{
    if t > r {
        lemma_overshoot(r, i, t);
        let m = t - r - 1;
        assert(0 <= m / i) by (nonlinear_arith)
            requires 0 <= m, 0 < i;
    }
}

/// Splitting elapsed time into two ticks fires the timer as often as one
/// tick of the combined length.
pub proof fn lemma_crossings_split(r: int, i: int, a: int, b: int)
    requires
        0 <= r <= i,
        0 < i,
        0 <= a,
        0 <= b,
    ensures
        crossings(r, i, a) + crossings(r + crossings(r, i, a) * i - a, i, b)
            == crossings(r, i, a + b),
        0 <= r + crossings(r, i, a) * i - a <= i,
{
    let n1 = crossings(r, i, a);
    lemma_crossings_facts(r, i, a);
    let r1 = r + n1 * i - a;
    let n2 = crossings(r1, i, b);
    lemma_crossings_facts(r1, i, b);
    assert(r + (n1 + n2) * i - (a + b) == r1 + n2 * i - b) by (nonlinear_arith)
        requires r1 == r + n1 * i - a;
    lemma_crossings_unique(r, i, a + b, n1 + n2);
}

/// However elapsed time is chunked into ticks, a timer fires as often as it
/// would on one tick of the total length.
pub proof fn lemma_fired_any_chunking(remaining: int, interval: int, dts: Seq<int>)
    requires
        0 <= remaining <= interval,
        0 < interval,
        forall|k: int| 0 <= k < dts.len() ==> 0 <= #[trigger] dts[k],
    ensures
        fired(remaining, interval, dts) == crossings(remaining, interval, total(dts)),
    decreases dts.len(),
{
    if dts.len() > 0 {
        let rest = dts.drop_first();
        assert(forall|k: int| 0 <= k < rest.len() ==> rest[k] == dts[k + 1]);
        lemma_total_nonneg(rest);
        lemma_crossings_split(remaining, interval, dts[0], total(rest));
        let n = crossings(remaining, interval, dts[0]);
        lemma_fired_any_chunking(remaining + n * interval - dts[0], interval, rest);
    }
}

proof fn lemma_total_nonneg(dts: Seq<int>)
    requires
        forall|k: int| 0 <= k < dts.len() ==> 0 <= #[trigger] dts[k],
    ensures
        0 <= total(dts),
    decreases dts.len(),
{
    if dts.len() > 0 {
        let rest = dts.drop_first();
        assert(forall|k: int| 0 <= k < rest.len() ==> rest[k] == dts[k + 1]);
        lemma_total_nonneg(rest);
    }
}

/// A fresh timer (a full interval left) fires `floor(T / interval)` times over
/// total time `T`, whatever the tick lengths, unless `T` is a positive whole
/// number of intervals: the firing owed at that instant comes only once the
/// countdown goes below zero, on the next tick.
pub proof fn lemma_fresh_timer_fires_floor(interval: int, dts: Seq<int>)
    requires
        0 < interval,
        forall|k: int| 0 <= k < dts.len() ==> 0 <= #[trigger] dts[k],
        !(total(dts) > 0 && total(dts) % interval == 0),
    ensures
        fired(interval, interval, dts) == total(dts) / interval,
{
    lemma_fired_any_chunking(interval, interval, dts);
    lemma_total_nonneg(dts);
    let t = total(dts);
    let i = interval;
    assert(t == (t / i) * i + t % i) by (nonlinear_arith)
        requires 0 <= t, 0 < i;
    assert(0 <= t % i < i) by (nonlinear_arith)
        requires 0 <= t, 0 < i;
    assert(0 <= t / i) by (nonlinear_arith)
        requires 0 <= t, 0 < i;
    if t > i {
        let q = t / i;
        let s = t % i;
        assert(q >= 1) by (nonlinear_arith)
            requires t == q * i + s, s < i, t > i, 0 < i;
        assert(t - i - 1 == (q - 1) * i + (s - 1)) by (nonlinear_arith)
            requires t == q * i + s;
        assert(0 <= s - 1) by {
            if s == 0 {
                assert(t % i == 0);
            }
        }
        assert((t - i - 1) / i == q - 1) by (nonlinear_arith)
            requires t - i - 1 == (q - 1) * i + (s - 1), 0 <= s - 1 < i, 0 < i, q >= 1;
    } else if t == i {
        assert(t % i == 0) by (nonlinear_arith)
            requires t == i, 0 < i;
    } else {
        assert(t / i == 0) by (nonlinear_arith)
            requires 0 <= t < i;
    }
}

} // verus!
