//! Stateless technical indicators over a fixed-point price series.
//!
//! Each indicator returns one entry per input price; `None` marks the warmup
//! entries that do not have enough history yet.

use vstd::prelude::*;
use crate::fixed::{SCALE, lemma_div_bounded, lemma_u64_product_fits};

verus! {

/// Sum of `s[lo..hi]`.
pub open spec fn sum_range(s: Seq<u64>, lo: int, hi: int) -> int
    decreases hi - lo,
{
    if hi <= lo {
        0
    } else {
        sum_range(s, lo, hi - 1) + s[hi - 1] as int
    }
}

proof fn lemma_sum_range_bounds(s: Seq<u64>, lo: int, hi: int)
    requires
        0 <= lo <= hi <= s.len(),
    ensures
        0 <= sum_range(s, lo, hi) <= (hi - lo) * (u64::MAX as int),
    decreases hi - lo,
{
    if hi > lo {
        lemma_sum_range_bounds(s, lo, hi - 1);
        assert((hi - 1 - lo) * (u64::MAX as int) + u64::MAX as int == (hi - lo) * (u64::MAX as int))
            by (nonlinear_arith);
    }
}

proof fn lemma_count_times_max_fits(n: int)
    requires
        0 <= n <= usize::MAX,
    ensures
        n * (u64::MAX as int) <= u128::MAX,
{
    lemma_u64_product_fits(n, u64::MAX as int);
}

/// Sums `s[lo..hi]` exactly.
fn sum_slice(s: &Vec<u64>, lo: usize, hi: usize) -> (r: u128)
    requires
        lo <= hi <= s@.len(),
    ensures
        r as int == sum_range(s@, lo as int, hi as int),
{
    let mut acc: u128 = 0;
    let mut j: usize = lo;
    while j < hi
        invariant
            lo <= j <= hi <= s@.len(),
            acc as int == sum_range(s@, lo as int, j as int),
        decreases hi - j,
    {
        proof {
            lemma_sum_range_bounds(s@, lo as int, j as int + 1);
            lemma_count_times_max_fits(j as int + 1 - lo as int);
        }
        acc = acc + s[j] as u128;
        j = j + 1;
    }
    acc
}

/// Simple moving average of the window ending at `i`.
pub open spec fn sma_value(s: Seq<u64>, period: int, i: int) -> int {
    sum_range(s, i + 1 - period, i + 1) / period
}

/// The SMA series: `None` for the first `period - 1` entries.
pub open spec fn sma_series(s: Seq<u64>, period: int) -> Seq<Option<u64>> {
    Seq::new(
        s.len(),
        |i: int| if i + 1 >= period { Some(sma_value(s, period, i) as u64) } else { None },
    )
}

/// EMA value at index `i >= period - 1`, seeded with the SMA of the first
/// `period` prices; `k = 2 / (period + 1)`.
pub open spec fn ema_value(s: Seq<u64>, period: int, i: int) -> int
    decreases i,
{
    if i <= 0 || i <= period - 1 {
        sum_range(s, 0, period) / period
    } else {
        (2 * s[i] + (period - 1) * ema_value(s, period, i - 1)) / (period + 1)
    }
}

/// The EMA series: `None` for the first `period - 1` entries.
pub open spec fn ema_series(s: Seq<u64>, period: int) -> Seq<Option<u64>> {
    Seq::new(
        s.len(),
        |i: int| if i + 1 >= period { Some(ema_value(s, period, i) as u64) } else { None },
    )
}

/// Upward move from `s[j]` to `s[j + 1]`, or zero.
pub open spec fn gain_at(s: Seq<u64>, j: int) -> int {
    if s[j + 1] > s[j] { s[j + 1] - s[j] } else { 0 }
}

/// Downward move from `s[j]` to `s[j + 1]`, or zero.
pub open spec fn loss_at(s: Seq<u64>, j: int) -> int {
    if s[j + 1] < s[j] { s[j] - s[j + 1] } else { 0 }
}

/// The per-step gains `gain_at(s, 0), ..., gain_at(s, len - 2)`.
pub open spec fn gains(s: Seq<u64>) -> Seq<u64> {
    Seq::new((if s.len() > 0 { s.len() - 1 } else { 0 }) as nat, |j: int| gain_at(s, j) as u64)
}

/// The per-step losses.
pub open spec fn losses(s: Seq<u64>) -> Seq<u64> {
    Seq::new((if s.len() > 0 { s.len() - 1 } else { 0 }) as nat, |j: int| loss_at(s, j) as u64)
}

/// Wilder-smoothed average of `d` at step `k >= period - 1`, seeded with the
/// simple mean of the first `period` entries.
pub open spec fn wilder_avg(d: Seq<u64>, period: int, k: int) -> int
    decreases k,
{
    if k <= 0 || k <= period - 1 {
        sum_range(d, 0, period) / period
    } else {
        (wilder_avg(d, period, k - 1) * (period - 1) + d[k] as int) / period
    }
}

/// `100 - 100 / (1 + g / l)` in fixed point, which is `100 * g / (g + l)`;
/// 100 when the average loss is zero.
pub open spec fn rsi_of(avg_gain: int, avg_loss: int) -> int {
    if avg_loss == 0 {
        100 * SCALE
    } else {
        (100 * SCALE * avg_gain) / (avg_gain + avg_loss)
    }
}

/// The RSI series: `None` for the first `period` entries.
pub open spec fn rsi_series(s: Seq<u64>, period: int) -> Seq<Option<u64>> {
    Seq::new(
        s.len(),
        |i: int|
            if i >= period {
                Some(
                    rsi_of(
                        wilder_avg(gains(s), period, i - 1),
                        wilder_avg(losses(s), period, i - 1),
                    ) as u64,
                )
            } else {
                None
            },
    )
}

/// Simple Moving Average over the last `period` prices.
pub struct SMA {
    pub period: usize,
}

impl SMA {
    pub fn new(period: usize) -> (r: Self)
        ensures
            r.period == period,
    {
        SMA { period }
    }

    /// One entry per price; entry `i` is the mean of `prices[i + 1 - period ..= i]`.
    pub fn calculate(&self, prices: &Vec<u64>) -> (r: Vec<Option<u64>>)
        requires
            self.period > 0,
        ensures
            r@ == sma_series(prices@, self.period as int),
    {
        let p = self.period;
        let n = prices.len();
        let mut out: Vec<Option<u64>> = Vec::new();
        let mut i: usize = 0;
        while i < n
            invariant
                p == self.period,
                p > 0,
                n == prices@.len(),
                i <= n,
                out@ =~= sma_series(prices@, p as int).subrange(0, i as int),
            decreases n - i,
        {
            if i + 1 >= p {
                let sum = sum_slice(prices, i + 1 - p, i + 1);
                proof {
                    lemma_sum_range_bounds(prices@, i + 1 - p, i + 1);
                    lemma_div_bounded(sum as int, p as int, u64::MAX as int);
                }
                let avg: u128 = sum / (p as u128);
                out.push(Some(avg as u64));
            } else {
                out.push(None);
            }
            i = i + 1;
        }
        out
    }
}

/// Exponential Moving Average with smoothing factor `2 / (period + 1)`.
pub struct EMA {
    pub period: usize,
}

impl EMA {
    pub fn new(period: usize) -> (r: Self)
        ensures
            r.period == period,
    {
        EMA { period }
    }

    /// The smoothing factor `k = 2 / (period + 1)` in fixed point.
    pub fn smoothing_factor(&self) -> (r: u64)
        ensures
            r as int == (2 * SCALE as int) / (self.period as int + 1),
    {
        let d: u128 = self.period as u128 + 1;
        let k: u128 = (2 * SCALE as u128) / d;
        k as u64
    }

    /// One entry per price: the seed SMA at `period - 1`, then
    /// `ema[i] = price[i] * k + ema[i - 1] * (1 - k)`.
    pub fn calculate(&self, prices: &Vec<u64>) -> (r: Vec<Option<u64>>)
        requires
            self.period > 0,
        ensures
            r@ == ema_series(prices@, self.period as int),
    {
        let p = self.period;
        let n = prices.len();
        let mut out: Vec<Option<u64>> = Vec::new();
        let mut prev: u64 = 0;
        let mut i: usize = 0;
        while i < n
            invariant
                p == self.period,
                p > 0,
                n == prices@.len(),
                i <= n,
                out@ =~= ema_series(prices@, p as int).subrange(0, i as int),
                i >= p ==> prev as int == ema_value(prices@, p as int, i - 1),
            decreases n - i,
        {
            if i + 1 == p {
                let sum = sum_slice(prices, 0, p);
                proof {
                    lemma_sum_range_bounds(prices@, 0, p as int);
                    lemma_div_bounded(sum as int, p as int, u64::MAX as int);
                }
                prev = (sum / (p as u128)) as u64;
                out.push(Some(prev));
            } else if i + 1 > p {
                let num_a: u128 = 2 * (prices[i] as u128);
                proof {
                    lemma_u64_product_fits(p as int - 1, prev as int);
                    assert(2 * prices@[i as int] + (p - 1) * prev <= (p + 1) * (u64::MAX as int))
                        by (nonlinear_arith)
                        requires
                            prices@[i as int] <= u64::MAX,
                            prev <= u64::MAX,
                            p >= 1,
                    ;
                    lemma_u64_product_fits(p as int + 1, u64::MAX as int);
                }
                let num_b: u128 = ((p - 1) as u128) * (prev as u128);
                let num: u128 = num_a + num_b;
                proof {
                    lemma_div_bounded(num as int, p as int + 1, u64::MAX as int);
                }
                prev = (num / (p as u128 + 1)) as u64;
                out.push(Some(prev));
            } else {
                out.push(None);
            }
            i = i + 1;
        }
        out
    }
}

/// Relative Strength Index with Wilder smoothing.
pub struct RSI {
    pub period: usize,
}

/// `rsi_of` on two averages that fit in `u64`.
fn rsi_from_averages(avg_gain: u64, avg_loss: u64) -> (r: u64)
    ensures
        r as int == rsi_of(avg_gain as int, avg_loss as int),
        r <= 100 * SCALE,
{
    if avg_loss == 0 {
        100 * SCALE
    } else {
        let hundred: u128 = 100 * SCALE as u128;
        let g: u128 = avg_gain as u128;
        let total: u128 = g + avg_loss as u128;
        proof {
            assert(hundred * g <= total * hundred) by (nonlinear_arith)
                requires
                    g <= total,
                    hundred >= 0,
            ;
            assert(hundred * g <= 100 * SCALE * u64::MAX) by (nonlinear_arith)
                requires
                    g <= u64::MAX,
                    hundred == 100 * SCALE,
            ;
            lemma_div_bounded((hundred * g) as int, total as int, hundred as int);
        }
        let v: u128 = (hundred * g) / total;
        v as u64
    }
}

/// Wilder step `(avg * (period - 1) + d) / period` on `u64` values.
fn wilder_step(avg: u64, d: u64, period: usize) -> (r: u64)
    requires
        period > 0,
    ensures
        r as int == (avg as int * (period as int - 1) + d as int) / period as int,
{
    proof {
        assert(avg * (period - 1) + d <= period * (u64::MAX as int)) by (nonlinear_arith)
            requires
                avg <= u64::MAX,
                d <= u64::MAX,
                period >= 1,
        ;
        lemma_u64_product_fits(period as int, u64::MAX as int);
        lemma_div_bounded(
            avg as int * (period as int - 1) + d as int,
            period as int,
            u64::MAX as int,
        );
    }
    let num: u128 = (avg as u128) * ((period - 1) as u128) + d as u128;
    (num / (period as u128)) as u64
}

impl RSI {
    pub fn new(period: usize) -> (r: Self)
        ensures
            r.period == period,
    {
        RSI { period }
    }

    /// One entry per price: `None` for the first `period` entries, then the
    /// RSI of the Wilder-smoothed average gain and loss.
    pub fn calculate(&self, prices: &Vec<u64>) -> (r: Vec<Option<u64>>)
        requires
            self.period > 0,
        ensures
            r@ == rsi_series(prices@, self.period as int),
    {
        let p = self.period;
        let n = prices.len();
        let mut ups: Vec<u64> = Vec::new();
        let mut downs: Vec<u64> = Vec::new();
        let mut j: usize = 1;
        while j < n
            invariant
                1 <= j <= if n == 0 { 1 } else { n },
                n == prices@.len(),
                ups@ =~= gains(prices@).subrange(0, j - 1),
                downs@ =~= losses(prices@).subrange(0, j - 1),
            decreases n - j,
        {
            let a = prices[j - 1];
            let b = prices[j];
            if b > a {
                ups.push(b - a);
                downs.push(0);
            } else {
                ups.push(0);
                downs.push(a - b);
            }
            j = j + 1;
        }
        proof {
            assert(gains(prices@).len() == if n > 0 { n - 1 } else { 0 });
            assert(gains(prices@).subrange(0, gains(prices@).len() as int) =~= gains(prices@));
            assert(losses(prices@).subrange(0, losses(prices@).len() as int) =~= losses(prices@));
            assert(ups@ =~= gains(prices@));
            assert(downs@ =~= losses(prices@));
        }
        let mut out: Vec<Option<u64>> = Vec::new();
        let mut avg_gain: u64 = 0;
        let mut avg_loss: u64 = 0;
        let mut i: usize = 0;
        while i < n
            invariant
                p == self.period,
                p > 0,
                n == prices@.len(),
                i <= n,
                ups@ == gains(prices@),
                downs@ == losses(prices@),
                out@ =~= rsi_series(prices@, p as int).subrange(0, i as int),
                i > p ==> avg_gain as int == wilder_avg(gains(prices@), p as int, i - 2),
                i > p ==> avg_loss as int == wilder_avg(losses(prices@), p as int, i - 2),
            decreases n - i,
        {
            if i == p {
                let sg = sum_slice(&ups, 0, p);
                let sl = sum_slice(&downs, 0, p);
                proof {
                    lemma_sum_range_bounds(ups@, 0, p as int);
                    lemma_sum_range_bounds(downs@, 0, p as int);
                    lemma_div_bounded(sg as int, p as int, u64::MAX as int);
                    lemma_div_bounded(sl as int, p as int, u64::MAX as int);
                }
                avg_gain = (sg / (p as u128)) as u64;
                avg_loss = (sl / (p as u128)) as u64;
                out.push(Some(rsi_from_averages(avg_gain, avg_loss)));
            } else if i > p {
                avg_gain = wilder_step(avg_gain, ups[i - 1], p);
                avg_loss = wilder_step(avg_loss, downs[i - 1], p);
                out.push(Some(rsi_from_averages(avg_gain, avg_loss)));
            } else {
                out.push(None);
            }
            i = i + 1;
        }
        out
    }
}

} // verus!
