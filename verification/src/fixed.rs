//! Signed 64-bit fixed-point scalars with sixteen fractional bits.
//!
//! A scalar `v` stands for the real number `v / ONE`.  Addition and
//! multiplication saturate at the `i64` range instead of wrapping, so
//! every operation is total and its result is pinned exactly by a spec
//! function.

use vstd::prelude::*;

verus! {

/// The fixed-point representation of the real number one.
pub const ONE: i64 = 65536;

/// Magnitude of an integer.
pub open spec fn abs_int(x: int) -> int {
    if x >= 0 {
        x
    } else {
        -x
    }
}

/// Clamp an integer into the `i64` range.
pub open spec fn sat64(x: int) -> int {
    if x > i64::MAX as int {
        i64::MAX as int
    } else if x < i64::MIN as int {
        i64::MIN as int
    } else {
        x
    }
}

/// `sat64`, carried back into `i64`.
pub open spec fn sat_to_i64(x: int) -> i64 {
    sat64(x) as i64
}

/// Division by a positive divisor, rounding toward zero.
pub open spec fn div_trunc(x: int, d: int) -> int
    recommends
        d > 0,
{
    if x >= 0 {
        x / d
    } else {
        -((-x) / d)
    }
}

/// Saturating fixed-point sum.
pub open spec fn fx_add_spec(a: int, b: int) -> int {
    sat64(a + b)
}

/// Saturating fixed-point difference.
pub open spec fn fx_sub_spec(a: int, b: int) -> int {
    sat64(a - b)
}

/// Saturating fixed-point product: the wide product rescaled by `ONE`,
/// rounding toward zero.
pub open spec fn fx_mul_spec(a: int, b: int) -> int {
    sat64(div_trunc(a * b, ONE as int))
}

pub fn fx_add(a: i64, b: i64) -> (r: i64)
    ensures
        r as int == fx_add_spec(a as int, b as int),
{
    let s: i128 = a as i128 + b as i128;
    if s > i64::MAX as i128 {
        i64::MAX
    } else if s < i64::MIN as i128 {
        i64::MIN
    } else {
        s as i64
    }
}

pub fn fx_sub(a: i64, b: i64) -> (r: i64)
    ensures
        r as int == fx_sub_spec(a as int, b as int),
{
    let s: i128 = a as i128 - b as i128;
    if s > i64::MAX as i128 {
        i64::MAX
    } else if s < i64::MIN as i128 {
        i64::MIN
    } else {
        s as i64
    }
}

/// Clamp a wide intermediate back into the scalar range.
pub fn sat_i128(x: i128) -> (r: i64)
    ensures
        r as int == sat64(x as int),
{
    if x > i64::MAX as i128 {
        i64::MAX
    } else if x < i64::MIN as i128 {
        i64::MIN
    } else {
        x as i64
    }
}

/// Magnitude of an `i64`, as a `u64` so that `i64::MIN` has one too.
fn abs64(a: i64) -> (r: u64)
    ensures
        r as int == abs_int(a as int),
{
    if a >= 0 {
        a as u64
    } else {
        let w: i128 = -(a as i128);
        w as u64
    }
}

/// The magnitude of a product is the product of the magnitudes.
proof fn lemma_abs_mul(a: int, b: int)
    by (nonlinear_arith)
    ensures
        abs_int(a) * abs_int(b) == abs_int(a * b),
{
}

/// Signs of a product: it is non-negative exactly when the factors
/// agree in sign (or one is zero).
proof fn lemma_mul_sign(a: int, b: int)
    by (nonlinear_arith)
    ensures
        (a >= 0 && b >= 0) || (a < 0 && b < 0) ==> a * b >= 0,
        (a >= 0 && b < 0) || (a < 0 && b >= 0) ==> a * b <= 0,
{
}

proof fn lemma_mag_product_fits(ma: int, mb: int)
    by (nonlinear_arith)
    requires
        0 <= ma <= 0x8000_0000_0000_0000,
        0 <= mb <= 0x8000_0000_0000_0000,
    ensures
        0 <= ma * mb <= 0x4000_0000_0000_0000_0000_0000_0000_0000,
{
}

/// `r` is the integer square root of `n`.
pub open spec fn is_isqrt(n: int, r: int) -> bool {
    0 <= r && r * r <= n && n < (r + 1) * (r + 1)
}

proof fn lemma_square_monotonic(x: int, y: int)
    by (nonlinear_arith)
    requires
        0 <= x <= y,
    ensures
        x * x <= y * y,
{
}

/// Integer square root by bisection.
pub fn isqrt64(n: u64) -> (r: u64)
    ensures
        is_isqrt(n as int, r as int),
        r <= 0x1_0000_0000,
{
    let mut lo: u64 = 0;
    let mut hi: u64 = 0x1_0000_0000;
    while hi - lo > 1
        invariant
            lo < hi <= 0x1_0000_0000,
            lo * lo <= n,
            n < hi * hi,
        decreases hi - lo,
    {
        let mid: u64 = lo + (hi - lo) / 2;
        proof {
            lemma_mag_product_fits(mid as int, mid as int);
        }
        let sq: u128 = (mid as u128) * (mid as u128);
        if sq <= n as u128 {
            lo = mid;
        } else {
            hi = mid;
        }
    }
    lo
}

/// Fixed-point reciprocal square root: the integer square root of
/// `ONE * ONE / n`, so `r / ONE` approximates `n^(-1/2)` from below.
pub fn inv_sqrt_fx(n: usize) -> (r: i64)
    requires
        n >= 1,
    ensures
        is_isqrt(ONE as int * ONE as int / n as int, r as int),
        0 <= r <= ONE,
{
    let m: u64 = 0x1_0000_0000u64 / (n as u64);
    let s: u64 = isqrt64(m);
    proof {
        if s as int > ONE as int {
            lemma_square_monotonic(ONE as int + 1, s as int);
        }
    }
    s as i64
}

pub fn fx_mul(a: i64, b: i64) -> (r: i64)
    ensures
        r as int == fx_mul_spec(a as int, b as int),
{
    let neg: bool = (a < 0) != (b < 0);
    let ma: u128 = abs64(a) as u128;
    let mb: u128 = abs64(b) as u128;
    proof {
        lemma_mag_product_fits(ma as int, mb as int);
        lemma_abs_mul(a as int, b as int);
        lemma_mul_sign(a as int, b as int);
    }
    let m: u128 = (ma * mb) / 65536;
    if neg {
        if m >= 0x8000_0000_0000_0000u128 {
            i64::MIN
        } else {
            -(m as i64)
        }
    } else {
        if m > i64::MAX as u128 {
            i64::MAX
        } else {
            m as i64
        }
    }
}

} // verus!
