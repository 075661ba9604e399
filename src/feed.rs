//! Text from the price feed: decimal amounts to fixed-point prices.

use vstd::prelude::*;
use crate::fixed::SCALE;
use crate::models::PricePoint;
use crate::clock::now_timestamp;

verus! {

#[derive(Debug)]
pub enum ApiError {
    RequestFailed(String),
    ParseError(String),
}

impl ApiError {
    /// Human-readable description of the failure.
    pub fn message(&self) -> (r: String)
        ensures
            r@ == match self {
                ApiError::RequestFailed(m) => m@,
                ApiError::ParseError(m) => m@,
            },
    {
        match self {
            ApiError::RequestFailed(m) => m.clone(),
            ApiError::ParseError(m) => m.clone(),
        }
    }
}

pub open spec fn is_digit(b: u8) -> bool {
    48 <= b <= 57
}

pub open spec fn all_digits(s: Seq<u8>) -> bool {
    forall|i: int| 0 <= i < s.len() ==> is_digit(#[trigger] s[i])
}

/// The number written by the decimal digits `s`.
pub open spec fn digits_value(s: Seq<u8>) -> int
    decreases s.len(),
{
    if s.len() == 0 {
        0
    } else {
        digits_value(s.drop_last()) * 10 + (s.last() - 48)
    }
}

pub open spec fn pow10(n: nat) -> int
    decreases n,
{
    if n == 0 { 1 } else { 10 * pow10((n - 1) as nat) }
}

/// Decimal places kept by a fixed-point value.
pub const DECIMALS: usize = 8;

/// The fraction digits `f` in fixed-point steps; digits past the eighth are
/// dropped.
pub open spec fn fraction_value(f: Seq<u8>) -> int {
    let k = if f.len() > DECIMALS { DECIMALS as int } else { f.len() as int };
    digits_value(f.take(k)) * pow10((DECIMALS - k) as nat)
}

/// Position of the first `.` in `s`, or -1.
pub open spec fn dot_index(s: Seq<u8>) -> int
    decreases s.len(),
{
    if s.len() == 0 {
        -1
    } else if s[0] == 46 {
        0
    } else {
        let r = dot_index(s.drop_first());
        if r < 0 { -1 } else { r + 1 }
    }
}

/// The fixed-point value of a decimal such as `"65432.1"`: one or more
/// digits, then optionally a point and zero or more digits.
pub open spec fn decimal_value(s: Seq<u8>) -> Option<int> {
    let d = dot_index(s);
    if d < 0 {
        if s.len() > 0 && all_digits(s) { Some(digits_value(s) * SCALE) } else { None }
    } else {
        let ip = s.take(d);
        let fp = s.skip(d + 1);
        if ip.len() > 0 && all_digits(ip) && all_digits(fp) {
            Some(digits_value(ip) * SCALE + fraction_value(fp))
        } else {
            None
        }
    }
}

/// `s` is a decimal whose fixed-point value fits in `u64`.
pub open spec fn price_text_ok(s: Seq<u8>) -> bool {
    decimal_value(s) is Some && decimal_value(s).unwrap() <= u64::MAX
}

proof fn lemma_dot_index(s: Seq<u8>)
    ensures
        -1 <= dot_index(s) < s.len(),
        dot_index(s) >= 0 ==> s[dot_index(s)] == 46,
        forall|j: int| 0 <= j < s.len() && (dot_index(s) < 0 || j < dot_index(s)) ==> s[j] != 46,
    decreases s.len(),
{
    if s.len() > 0 {
        lemma_dot_index(s.drop_first());
        assert forall|j: int| 0 <= j < s.len() && (dot_index(s) < 0 || j < dot_index(s)) implies s[j] != 46 by {
            if j > 0 {
                assert(s.drop_first()[j - 1] == s[j]);
            }
        }
    }
}

proof fn lemma_pow10_positive(n: nat)
    ensures
        pow10(n) >= 1,
    decreases n,
{
    if n > 0 {
        lemma_pow10_positive((n - 1) as nat);
    }
}

/// Cap kept while accumulating the integer part: any larger value already
/// exceeds every `u64` price.
pub const INT_CAP: u128 = 0x1_0000_0000_0000_0000;

/// Reads the digits `s[lo..hi]`, capped at `INT_CAP`; `None` if any is not a digit.
pub(crate) fn read_digits(s: &[u8], lo: usize, hi: usize) -> (r: Option<u128>)
    requires
        lo <= hi <= s@.len(),
    ensures
        r is Some <==> all_digits(s@.subrange(lo as int, hi as int)),
        r is Some ==> r.unwrap() as int == if digits_value(s@.subrange(lo as int, hi as int)) > INT_CAP {
            INT_CAP as int
        } else {
            digits_value(s@.subrange(lo as int, hi as int))
        },
{
    let mut acc: u128 = 0;
    let mut i: usize = lo;
    while i < hi
        invariant
            lo <= i <= hi <= s@.len(),
            all_digits(s@.subrange(lo as int, i as int)),
            acc as int == if digits_value(s@.subrange(lo as int, i as int)) > INT_CAP {
                INT_CAP as int
            } else {
                digits_value(s@.subrange(lo as int, i as int))
            },
            acc <= INT_CAP,
        decreases hi - i,
    {
        let b = s[i];
        if b < 48 || b > 57 {
            proof {
                assert(s@.subrange(lo as int, hi as int)[i - lo] == b);
            }
            return None;
        }
        proof {
            let pre = s@.subrange(lo as int, i as int + 1);
            assert(pre.drop_last() =~= s@.subrange(lo as int, i as int));
            assert(pre.last() == b);
            assert forall|j: int| 0 <= j < pre.len() implies is_digit(#[trigger] pre[j]) by {
                if j < pre.len() - 1 {
                    assert(pre[j] == s@.subrange(lo as int, i as int)[j]);
                }
            }
            assert(digits_value(s@.subrange(lo as int, i as int)) >= 0) by {
                lemma_digits_nonneg(s@.subrange(lo as int, i as int));
            }
        }
        let next: u128 = acc * 10 + (b - 48) as u128;
        acc = if next > INT_CAP { INT_CAP } else { next };
        i = i + 1;
    }
    Some(acc)
}

proof fn lemma_digits_nonneg(s: Seq<u8>)
    requires
        all_digits(s),
    ensures
        digits_value(s) >= 0,
    decreases s.len(),
{
    if s.len() > 0 {
        assert(is_digit(s[s.len() - 1]));
        lemma_digits_nonneg(s.drop_last());
    }
}

fn find_dot(s: &[u8]) -> (r: Option<usize>)
    ensures
        r is Some <==> dot_index(s@) >= 0,
        r is Some ==> r.unwrap() as int == dot_index(s@) && r.unwrap() < s@.len(),
{
    proof {
        lemma_dot_index(s@);
    }
    let mut d: usize = 0;
    while d < s.len()
        invariant
            d <= s@.len(),
            forall|j: int| 0 <= j < d ==> s@[j] != 46,
            -1 <= dot_index(s@) < s@.len(),
            dot_index(s@) >= 0 ==> s@[dot_index(s@)] == 46,
            forall|j: int| 0 <= j < s@.len() && (dot_index(s@) < 0 || j < dot_index(s@)) ==> s@[j] != 46,
        decreases s@.len() - d,
    {
        if s[d] == 46 {
            return Some(d);
        }
        d = d + 1;
    }
    None
}

/// Parses a decimal amount into a fixed-point price.
pub fn parse_price(s: &[u8]) -> (r: Result<u64, ApiError>)
    ensures
        r is Ok <==> price_text_ok(s@),
        r is Ok ==> decimal_value(s@) == Some(r->Ok_0 as int),
{
    proof {
        lemma_dot_index(s@);
    }
    let n = s.len();
    let dot = find_dot(s);
    let has_dot = dot.is_some();
    let d: usize = match dot {
        Some(i) => i,
        None => n,
    };
    proof {
        if !has_dot {
            assert(s@.subrange(0, n as int) =~= s@);
        }
        assert(s@.take(d as int) =~= s@.subrange(0, d as int));
    }
    if d == 0 {
        return Err(ApiError::ParseError("invalid price".to_owned()));
    }
    let ip = match read_digits(s, 0, d) {
        None => {
            return Err(ApiError::ParseError("invalid price".to_owned()));
        },
        Some(v) => v,
    };
    let mut frac: u128 = 0;
    if has_dot {
        let start = d + 1;
        let end = if n - start > DECIMALS { start + DECIMALS } else { n };
        let kept = match read_digits(s, start, end) {
            None => {
                proof {
                    assert forall|j: int| 0 <= j < end - start implies s@.subrange(start as int, end as int)[j] == s@.skip(start as int)[j] by {}
                }
                return Err(ApiError::ParseError("invalid price".to_owned()));
            },
            Some(v) => v,
        };
        let rest = read_digits(s, end, n);
        if rest.is_none() {
            proof {
                assert forall|j: int| 0 <= j < n - end implies s@.subrange(end as int, n as int)[j] == s@.skip(start as int)[j + (end - start)] by {}
            }
            return Err(ApiError::ParseError("invalid price".to_owned()));
        }
        proof {
            let fp = s@.skip(start as int);
            assert(fp.take((end - start) as int) =~= s@.subrange(start as int, end as int));
            assert forall|j: int| 0 <= j < fp.len() implies is_digit(#[trigger] fp[j]) by {
                if j < end - start {
                    assert(fp[j] == s@.subrange(start as int, end as int)[j]);
                } else {
                    assert(fp[j] == s@.subrange(end as int, n as int)[j - (end - start)]);
                }
            }
            lemma_digits_bound(s@.subrange(start as int, end as int));
            lemma_pow10_mono((end - start) as nat, 8);
            lemma_pow10_scale();
        }
        let mut scaled: u128 = kept;
        let mut k: usize = end - start;
        while k < DECIMALS
            invariant
                end - start <= k <= DECIMALS,
                kept as int == digits_value(s@.subrange(start as int, end as int)),
                kept < pow10((end - start) as nat),
                scaled as int == kept * pow10((k - (end - start)) as nat),
                scaled < pow10(k as nat),
            decreases DECIMALS - k,
        {
            proof {
                assert(pow10((k + 1 - (end - start)) as nat) == 10 * pow10((k - (end - start)) as nat));
                assert(pow10((k + 1) as nat) == 10 * pow10(k as nat));
                lemma_pow10_scale();
                lemma_pow10_mono(k as nat, 8);
            }
            scaled = scaled * 10;
            k = k + 1;
            proof {
                assert(scaled as int == kept * pow10((k - (end - start)) as nat)) by (nonlinear_arith)
                    requires
                        scaled as int == (kept * pow10((k - 1 - (end - start)) as nat)) * 10,
                        pow10((k - (end - start)) as nat) == 10 * pow10((k - 1 - (end - start)) as nat),
                ;
            }
        }
        frac = scaled;
    }
    proof {
        assert(pow10(0) == 1);
        lemma_pow10_scale();
        let iv = digits_value(s@.take(d as int));
        lemma_digits_nonneg(s@.take(d as int));
        if has_dot {
            let fp = s@.skip(d as int + 1);
            let k = if fp.len() > DECIMALS { DECIMALS as int } else { fp.len() as int };
            assert(frac as int == fraction_value(fp));
            assert(decimal_value(s@) == Some(iv * SCALE + fraction_value(fp)));
        } else {
            assert(frac == 0);
            assert(decimal_value(s@) == Some(iv * SCALE));
        }
        assert(0 <= frac < SCALE);
        if iv > INT_CAP {
            assert(ip == INT_CAP);
        }
        assert(ip * SCALE <= INT_CAP * SCALE) by (nonlinear_arith)
            requires ip <= INT_CAP;
    }
    let total: u128 = ip * (SCALE as u128) + frac;
    if total > u64::MAX as u128 {
        return Err(ApiError::ParseError("price out of range".to_owned()));
    }
    Ok(total as u64)
}

proof fn lemma_pow10_scale()
    ensures
        pow10(8) == SCALE,
{
    assert(pow10(0) == 1);
    assert(pow10(1) == 10);
    assert(pow10(2) == 100);
    assert(pow10(3) == 1000);
    assert(pow10(4) == 10000);
    assert(pow10(5) == 100000);
    assert(pow10(6) == 1000000);
    assert(pow10(7) == 10000000);
    assert(pow10(8) == 100000000);
}

proof fn lemma_digits_bound(s: Seq<u8>)
    requires
        all_digits(s),
    ensures
        0 <= digits_value(s) < pow10(s.len()),
    decreases s.len(),
{
    if s.len() > 0 {
        assert(is_digit(s[s.len() - 1]));
        assert(all_digits(s.drop_last()));
        lemma_digits_bound(s.drop_last());
        assert(pow10(s.len()) == 10 * pow10((s.len() - 1) as nat));
    }
}

proof fn lemma_pow10_mono(a: nat, b: nat)
    requires
        a <= b,
    ensures
        pow10(a) <= pow10(b),
    decreases b,
{
    lemma_pow10_positive(b);
    if a < b {
        lemma_pow10_mono(a, (b - 1) as nat);
        lemma_pow10_positive((b - 1) as nat);
    }
}

/// A tick for `asset` at the current time from the feed's decimal `amount`.
pub fn spot_price_point(asset: String, amount: &[u8]) -> (r: Result<PricePoint, ApiError>)
    ensures
        r is Ok <==> price_text_ok(amount@),
        r is Ok ==> r->Ok_0.asset == asset && decimal_value(amount@) == Some(r->Ok_0.price as int),
{
    let price = match parse_price(amount) {
        Ok(p) => p,
        Err(e) => {
            return Err(e);
        },
    };
    Ok(PricePoint { timestamp: now_timestamp(), asset, price })
}

} // verus!
