use vstd::prelude::*;

verus! {

/// The running mean of a stream of samples, kept exactly as the sum of the
/// samples and their number. Samples are non-negative integers in whatever fixed
/// unit the caller measures radiance in.
#[derive(Clone, Copy, Debug, PartialEq, Eq, Structural)]
pub struct RunningMean {
    pub total: u64,
    pub count: u64,
}

/// Sum of a sequence of samples.
pub open spec fn sum(s: Seq<u32>) -> int
    decreases s.len(),
{
    if s.len() == 0 {
        0
    } else {
        sum(s.drop_last()) + s.last()
    }
}

impl RunningMean {
    pub fn new() -> (r: RunningMean)
        ensures
            r == (RunningMean { total: 0, count: 0 }),
    {
        RunningMean { total: 0, count: 0 }
    }

    /// The mean as a fraction `total / count`; zero before the first sample.
    pub open spec fn value(self) -> (int, int) {
        if self.count == 0 {
            (0, 1)
        } else {
            (self.total as int, self.count as int)
        }
    }

    /// Folds one sample into the mean. Refused, with nothing changed, when the
    /// sum or the count would no longer fit.
    pub fn add_sample(&mut self, sample: u32) -> (ok: bool)
        ensures
            ok == (old(self).total + sample <= u64::MAX && old(self).count < u64::MAX),
            ok ==> *final(self) == (RunningMean {
                total: (old(self).total + sample) as u64,
                count: (old(self).count + 1) as u64,
            }),
            !ok ==> *final(self) == *old(self),
    {
        if self.total > u64::MAX - sample as u64 || self.count == u64::MAX {
            return false;
        }
        self.total = self.total + sample as u64;
        self.count = self.count + 1;
        true
    }

    /// The mean rounded down; zero before the first sample.
    pub fn mean_floor(&self) -> (r: u64)
        ensures
            r == self.value().0 / self.value().1,
    {
        if self.count == 0 {
            0
        } else {
            self.total / self.count
        }
    }

    /// The displayed byte of this mean: the tone-mapped value `v / (v + 1)`
    /// scaled to 255 and rounded down; zero before the first sample.
    pub fn display_byte(&self) -> (r: u8)
        ensures
            r == tone(self.value().0, self.value().1),
    {
        if self.count == 0 {
            0
        } else {
            tone_map(self.total, self.count)
        }
    }
}

impl RunningMean {
    /// The displayed byte with the exposure `exposure_num / exposure_den`
    /// applied: the mean scaled by the exposure, then tone-mapped; zero before
    /// the first sample.
    pub fn display_byte_exposed(&self, exposure_num: u32, exposure_den: u32) -> (r: u8)
        requires
            exposure_den > 0,
        ensures
            r == if self.count == 0 {
                0
            } else {
                tone(self.total * exposure_num, self.count * exposure_den)
            },
    {
        if self.count == 0 {
            return 0;
        }
        let t = self.total as u128;
        let c = self.count as u128;
        let en = exposure_num as u128;
        let ed = exposure_den as u128;
        assert(t * en <= 0xffff_ffff_ffff_ffff * 0xffff_ffff) by (nonlinear_arith)
            requires
                t <= 0xffff_ffff_ffff_ffff,
                en <= 0xffff_ffff,
        ;
        assert(c * ed <= 0xffff_ffff_ffff_ffff * 0xffff_ffff) by (nonlinear_arith)
            requires
                c <= 0xffff_ffff_ffff_ffff,
                ed <= 0xffff_ffff,
        ;
        assert(c * ed > 0) by (nonlinear_arith)
            requires
                c > 0,
                ed > 0,
        ;
        let n = t * en;
        let d = c * ed;
        let q = (255 * n) / (n + d);
        assert(q <= 254) by (nonlinear_arith)
            requires
                d > 0,
                q == (255 * n) / (n + d),
        ;
        q as u8
    }
}

/// The exact tone curve `v / (v + 1)` is strictly increasing: for values
/// `a / b < c / d`, `a / (a + b) < c / (c + d)`, cross-multiplied.
pub proof fn lemma_tone_curve_increasing(a: int, b: int, c: int, d: int)
    requires
        a >= 0,
        c >= 0,
        b > 0,
        d > 0,
        a * d < c * b,
    ensures
        a * (c + d) < c * (a + b),
{
    assert(a * (c + d) < c * (a + b)) by (nonlinear_arith)
        requires
            a * d < c * b,
    ;
}

/// The exact tone curve stays below one and tends to it: for `v = a / b`,
/// `v / (v + 1) < 1`, and once `v` exceeds `q / p`, the gap `1 - v / (v + 1)`,
/// which is `b / (a + b)`, is below `p / q`.
pub proof fn lemma_tone_curve_limit(a: int, b: int, p: int, q: int)
    requires
        a >= 0,
        b > 0,
        p > 0,
        q > 0,
        a * p > q * b,
    ensures
        a < a + b,
        b * q < p * (a + b),
{
    assert(b * q < p * (a + b)) by (nonlinear_arith)
        requires
            a * p > q * b,
            p > 0,
            b > 0,
    ;
}

/// One update of the running mean is the incremental rule
/// `m_k = m_{k-1} + (s_k - m_{k-1}) / k`: multiplied out by `k (k - 1)`, the
/// new mean times `k (k - 1)` equals `k` times the old sum plus `(k - 1) s_k`
/// minus the old sum.
pub proof fn lemma_incremental_mean(before: RunningMean, after: RunningMean, sample: u32)
    requires
        after.total == before.total + sample,
        after.count == before.count + 1,
    ensures
        ({
            let k = after.count as int;
            let old_total = before.total as int;
            after.total * (k - 1) == k * old_total + (k - 1) * sample - old_total
        }),
{
    let k = after.count as int;
    assert(after.total * (k - 1) == k * before.total + (k - 1) * sample - before.total) by (nonlinear_arith)
        requires
            after.total == before.total + sample,
            k == before.count + 1,
    ;
}

/// A mean fed only with the same sample, any number of times, is exactly that
/// sample, however many samples it has taken.
pub proof fn lemma_constant_samples(s: Seq<u32>, v: u32)
    requires
        s.len() > 0,
        forall|i: int| 0 <= i < s.len() ==> s[i] == v,
    ensures
        sum(s) == s.len() * v,
        sum(s) / (s.len() as int) == v,
    decreases s.len(),
{
    let n = s.len() as int;
    if s.len() > 1 {
        let r = s.drop_last();
        assert forall|i: int| 0 <= i < r.len() implies r[i] == v by {
            assert(r[i] == s[i]);
        }
        lemma_constant_samples(r, v);
        assert(sum(s) == (n - 1) * v + v);
        assert((n - 1) * v + v == n * v) by (nonlinear_arith);
    } else {
        assert(s.drop_last().len() == 0);
        assert(sum(s.drop_last()) == 0);
        assert(s.last() == s[0]);
    }
    assert((n * v) / n == v) by (nonlinear_arith)
        requires
            n > 0,
    ;
}

/// Tone mapping of the value `num / den`: `v / (v + 1)` scaled to 255 and
/// rounded down.
pub open spec fn tone(num: int, den: int) -> int {
    (255 * num) / (num + den)
}

/// Tone-maps the value `num / den` to a display byte.
pub fn tone_map(num: u64, den: u64) -> (r: u8)
    requires
        den > 0,
    ensures
        r == tone(num as int, den as int),
        r <= 254,
{
    let n = num as u128;
    let d = den as u128;
    let q = (255 * n) / (n + d);
    assert(q <= 254) by (nonlinear_arith)
        requires
            d > 0,
            q == (255 * n) / (n + d),
    ;
    q as u8
}

/// Tone mapping never decreases: a larger value maps to a byte at least as large.
pub proof fn lemma_tone_monotonic(n1: int, d1: int, n2: int, d2: int)
    requires
        n1 >= 0,
        n2 >= 0,
        d1 > 0,
        d2 > 0,
        n1 * d2 <= n2 * d1,
    ensures
        tone(n1, d1) <= tone(n2, d2),
{
    let a = 255 * n1;
    let b = n1 + d1;
    let c = 255 * n2;
    let e = n2 + d2;
    assert(a * e <= c * b) by (nonlinear_arith)
        requires
            a == 255 * n1,
            b == n1 + d1,
            c == 255 * n2,
            e == n2 + d2,
            n1 * d2 <= n2 * d1,
    ;
    let q = a / b;
    assert(q * b <= a) by (nonlinear_arith)
        requires
            b > 0,
            q == a / b,
            a >= 0,
    ;
    assert(q * e <= c) by (nonlinear_arith)
        requires
            q * b <= a,
            a * e <= c * b,
            b > 0,
            e > 0,
            q >= 0,
    ;
    assert(q <= c / e) by (nonlinear_arith)
        requires
            q * e <= c,
            e > 0,
    ;
}

/// Tone mapping is bounded: every non-negative value maps below 255, that is
/// below one after scaling.
pub proof fn lemma_tone_bounded(num: int, den: int)
    requires
        num >= 0,
        den > 0,
    ensures
        0 <= tone(num, den) < 255,
{
    assert(0 <= (255 * num) / (num + den) < 255) by (nonlinear_arith)
        requires
            num >= 0,
            den > 0,
    ;
}

/// Zero maps to zero, one maps to half of 255 rounded down, and every value of at
/// least 254 reaches the largest byte the mapping takes, 254.
pub proof fn lemma_tone_points(den: int, num: int)
    requires
        den > 0,
    ensures
        tone(0, den) == 0,
        tone(den, den) == 127,
        num >= 254 * den ==> tone(num, den) == 254,
{
    assert(tone(0, den) == 0) by (nonlinear_arith)
        requires
            den > 0,
    ;
    assert((255 * den) / (den + den) == 127) by (nonlinear_arith)
        requires
            den > 0,
    ;
    if num >= 254 * den {
        assert((255 * num) / (num + den) == 254) by (nonlinear_arith)
            requires
                den > 0,
                num >= 254 * den,
        ;
    }
}

/// Running means of many entries (pixel channels), each fed on its own.
pub struct Accumulator {
    pub entries: Vec<RunningMean>,
}

impl Accumulator {
    /// `n` entries, none of which has a sample yet.
    pub fn new(n: usize) -> (r: Accumulator)
        ensures
            r.entries@.len() == n,
            forall|i: int| 0 <= i < n ==> #[trigger] r.entries@[i] == (RunningMean { total: 0, count: 0 }),
    {
        let mut entries: Vec<RunningMean> = Vec::new();
        let mut i: usize = 0;
        while i < n
            invariant
                i <= n,
                entries@.len() == i,
                forall|j: int| 0 <= j < i ==> #[trigger] entries@[j] == (RunningMean { total: 0, count: 0 }),
            decreases n - i,
        {
            entries.push(RunningMean::new());
            i = i + 1;
        }
        Accumulator { entries }
    }

    /// Folds a sample into entry `index`, leaving all others as they were.
    /// Refused, with nothing changed, when the index is out of range or the
    /// entry is full.
    pub fn add_sample(&mut self, index: usize, sample: u32) -> (ok: bool)
        ensures
            final(self).entries@.len() == old(self).entries@.len(),
            ok == (index < old(self).entries@.len() && old(self).entries@[index as int].total + sample
                <= u64::MAX && old(self).entries@[index as int].count < u64::MAX),
            ok ==> final(self).entries@ == old(self).entries@.update(
                index as int,
                RunningMean {
                    total: (old(self).entries@[index as int].total + sample) as u64,
                    count: (old(self).entries@[index as int].count + 1) as u64,
                },
            ),
            !ok ==> final(self).entries@ == old(self).entries@,
    {
        if index >= self.entries.len() {
            return false;
        }
        let mut m = self.entries[index];
        let ok = m.add_sample(sample);
        if ok {
            self.entries.set(index, m);
        }
        ok
    }

    /// The display bytes of all entries.
    pub fn display(&self) -> (r: Vec<u8>)
        ensures
            r@.len() == self.entries@.len(),
            forall|i: int|
                0 <= i < r@.len() ==> #[trigger] r@[i] == tone(
                    self.entries@[i].value().0,
                    self.entries@[i].value().1,
                ),
    {
        let mut out: Vec<u8> = Vec::new();
        let mut i: usize = 0;
        while i < self.entries.len()
            invariant
                i <= self.entries@.len(),
                out@.len() == i,
                forall|j: int|
                    0 <= j < i ==> #[trigger] out@[j] == tone(
                        self.entries@[j].value().0,
                        self.entries@[j].value().1,
                    ),
            decreases self.entries@.len() - i,
        {
            out.push(self.entries[i].display_byte());
            i = i + 1;
        }
        out
    }
}

} // verus!
