//! Fixed-point arithmetic: a value `v` stands for `v / SCALE` units.

use vstd::prelude::*;

verus! {

/// Number of fixed-point steps in one whole unit (eight decimal places).
pub const SCALE: u64 = 100_000_000;

/// `a * b` in fixed point, rounded down.
pub open spec fn fx_mul(a: int, b: int) -> int {
    (a * b) / (SCALE as int)
}

/// `a / b` in fixed point, rounded down (`b > 0`).
pub open spec fn fx_div(a: int, b: int) -> int {
    (a * (SCALE as int)) / b
}

/// A value no larger than `p * m` divided by `p` is no larger than `m`.
pub proof fn lemma_div_bounded(x: int, p: int, m: int)
    requires
        0 <= x <= p * m,
        0 < p,
        0 <= m,
    ensures
        0 <= x / p <= m,
{
    vstd::arithmetic::div_mod::lemma_div_is_ordered(x, p * m, p);
    vstd::arithmetic::div_mod::lemma_div_is_ordered(0, x, p);
    vstd::arithmetic::mul::lemma_mul_is_commutative(p, m);
    vstd::arithmetic::div_mod::lemma_div_by_multiple(m, p);
}

/// The product of two `u64` values fits in a `u128`.
pub proof fn lemma_u64_product_fits(a: int, b: int)
    requires
        0 <= a <= u64::MAX,
        0 <= b <= u64::MAX,
    ensures
        0 <= a * b <= u64::MAX * u64::MAX,
        u64::MAX * u64::MAX < u128::MAX,
{
    assert(0 <= a * b <= u64::MAX * u64::MAX) by (nonlinear_arith)
        requires
            0 <= a <= u64::MAX,
            0 <= b <= u64::MAX,
    ;
}

/// Multiplies two fixed-point values; `None` when the result exceeds `u64`.
pub fn checked_fx_mul(a: u64, b: u64) -> (r: Option<u64>)
    ensures
        fx_mul(a as int, b as int) <= u64::MAX ==> r == Some(fx_mul(a as int, b as int) as u64),
        fx_mul(a as int, b as int) > u64::MAX ==> r is None,
{
    proof {
        lemma_u64_product_fits(a as int, b as int);
    }
    let p: u128 = (a as u128) * (b as u128);
    let q: u128 = p / (SCALE as u128);
    if q <= u64::MAX as u128 {
        Some(q as u64)
    } else {
        None
    }
}

/// Divides two fixed-point values; `None` when `b` is zero or the result
/// exceeds `u64`.
pub fn checked_fx_div(a: u64, b: u64) -> (r: Option<u64>)
    ensures
        b == 0 ==> r is None,
        b > 0 && fx_div(a as int, b as int) <= u64::MAX ==> r == Some(fx_div(a as int, b as int) as u64),
        b > 0 && fx_div(a as int, b as int) > u64::MAX ==> r is None,
{
    if b == 0 {
        return None;
    }
    proof {
        lemma_u64_product_fits(a as int, SCALE as int);
    }
    let p: u128 = (a as u128) * (SCALE as u128);
    let q: u128 = p / (b as u128);
    if q <= u64::MAX as u128 {
        Some(q as u64)
    } else {
        None
    }
}

} // verus!
