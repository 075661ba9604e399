//! Requests for indicator series: which indicators, over which history.

use vstd::prelude::*;
use crate::feed::{all_digits, digits_value, read_digits};
use crate::indicators::{SMA, EMA, sma_series, ema_series};
use crate::models::PricePoint;

verus! {

#[derive(Debug, Clone, Copy, PartialEq, Eq, Structural)]
pub enum IndicatorKind {
    Sma,
    Ema,
}

/// Smallest and largest accepted indicator periods.
pub const MIN_PERIOD: usize = 2;
pub const MAX_PERIOD: usize = 200;
/// Fewest points over which indicators are computed.
pub const MIN_POINTS: usize = 20;

/// `"sma_<n>"` or `"ema_<n>"` with `n` a decimal period in `[2, 200]`.
pub open spec fn indicator_of(t: Seq<u8>) -> Option<(IndicatorKind, int)> {
    if t.len() > 4 && t[3] == 95 && all_digits(t.skip(4)) && MIN_PERIOD <= digits_value(t.skip(4))
        <= MAX_PERIOD {
        if t.take(3) == seq![115u8, 109u8, 97u8] {
            Some((IndicatorKind::Sma, digits_value(t.skip(4))))
        } else if t.take(3) == seq![101u8, 109u8, 97u8] {
            Some((IndicatorKind::Ema, digits_value(t.skip(4))))
        } else {
            None
        }
    } else {
        None
    }
}

/// Parses one indicator name such as `sma_20`.
pub fn parse_indicator(t: &[u8]) -> (r: Option<(IndicatorKind, usize)>)
    ensures
        r is Some <==> indicator_of(t@) is Some,
        r is Some ==> r.unwrap().0 == indicator_of(t@).unwrap().0
            && r.unwrap().1 as int == indicator_of(t@).unwrap().1,
{
    let n = t.len();
    if n <= 4 || t[3] != 95 {
        return None;
    }
    proof {
        assert(t@.skip(4) =~= t@.subrange(4, n as int));
    }
    let v = match read_digits(t, 4, n) {
        None => {
            return None;
        },
        Some(v) => v,
    };
    if v < MIN_PERIOD as u128 || v > MAX_PERIOD as u128 {
        return None;
    }
    let kind = if t[0] == 115 && t[1] == 109 && t[2] == 97 {
        proof {
            assert(t@.take(3) =~= seq![115u8, 109u8, 97u8]);
        }
        IndicatorKind::Sma
    } else if t[0] == 101 && t[1] == 109 && t[2] == 97 {
        proof {
            assert(t@.take(3) =~= seq![101u8, 109u8, 97u8]);
        }
        IndicatorKind::Ema
    } else {
        proof {
            assert(t@.take(3)[0] == t@[0] && t@.take(3)[1] == t@[1] && t@.take(3)[2] == t@[2]);
        }
        return None;
    };
    Some((kind, v as usize))
}

/// The series of `kind` with `period` over `prices`.
pub fn compute_indicator(kind: IndicatorKind, period: usize, prices: &Vec<u64>) -> (r: Vec<Option<u64>>)
    requires
        period > 0,
    ensures
        kind == IndicatorKind::Sma ==> r@ == sma_series(prices@, period as int),
        kind == IndicatorKind::Ema ==> r@ == ema_series(prices@, period as int),
{
    match kind {
        IndicatorKind::Sma => SMA::new(period).calculate(prices),
        IndicatorKind::Ema => EMA::new(period).calculate(prices),
    }
}

/// Why an indicator request was refused.
#[derive(Debug, Clone, Copy, PartialEq, Eq, Structural)]
pub enum IndicatorRequestError {
    /// Only the one-hour timeframe is served.
    UnsupportedTimeframe,
    NoData,
    InsufficientData,
}

/// Checks the timeframe (`"1h"` only) and the number of available points.
pub fn check_indicator_request(timeframe: &String, points: usize) -> (r: Result<(), IndicatorRequestError>)
    ensures
        timeframe@ != seq!['1', 'h'] ==> r == Err::<(), IndicatorRequestError>(IndicatorRequestError::UnsupportedTimeframe),
        timeframe@ == seq!['1', 'h'] && points == 0 ==> r == Err::<(), IndicatorRequestError>(IndicatorRequestError::NoData),
        timeframe@ == seq!['1', 'h'] && 0 < points < MIN_POINTS
            ==> r == Err::<(), IndicatorRequestError>(IndicatorRequestError::InsufficientData),
        timeframe@ == seq!['1', 'h'] && points >= MIN_POINTS ==> r is Ok,
{
    let one_hour = "1h".to_owned();
    proof {
        reveal_strlit("1h");
        assert(one_hour@ =~= seq!['1', 'h']);
    }
    if *timeframe != one_hour {
        return Err(IndicatorRequestError::UnsupportedTimeframe);
    }
    if points == 0 {
        return Err(IndicatorRequestError::NoData);
    }
    if points < MIN_POINTS {
        return Err(IndicatorRequestError::InsufficientData);
    }
    Ok(())
}

/// The prices of `points`, in order.
pub fn prices_of(points: &Vec<PricePoint>) -> (r: Vec<u64>)
    ensures
        r@.len() == points@.len(),
        forall|i: int| 0 <= i < r@.len() ==> r@[i] == points@[i].price,
{
    let mut out: Vec<u64> = Vec::new();
    let mut i: usize = 0;
    while i < points.len()
        invariant
            i <= points@.len(),
            out@.len() == i,
            forall|j: int| 0 <= j < i ==> out@[j] == points@[j].price,
        decreases points@.len() - i,
    {
        out.push(points[i].price);
        i = i + 1;
    }
    out
}

/// The timestamps of `points`, in order.
pub fn timestamps_of(points: &Vec<PricePoint>) -> (r: Vec<i64>)
    ensures
        r@.len() == points@.len(),
        forall|i: int| 0 <= i < r@.len() ==> r@[i] == points@[i].timestamp,
{
    let mut out: Vec<i64> = Vec::new();
    let mut i: usize = 0;
    while i < points.len()
        invariant
            i <= points@.len(),
            out@.len() == i,
            forall|j: int| 0 <= j < i ==> out@[j] == points@[j].timestamp,
        decreases points@.len() - i,
    {
        out.push(points[i].timestamp);
        i = i + 1;
    }
    out
}

} // verus!
