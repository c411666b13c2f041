//! Fixed-point scalars.
//!
//! A real number `v` is held as the integer `v * ONE`, so `ONE` stands for
//! 1.0 and the smallest step is one billionth. Every operation saturates at
//! the bounds of `i64` instead of overflowing, and products are truncated
//! toward zero.
use vstd::prelude::*;

verus! {

/// The representation of 1.0.
pub const ONE: i64 = 1_000_000_000;

/// The representation of 0.1.
pub const TENTH: i64 = 100_000_000;

/// Clamps a mathematical integer into the range of `i64`.
pub open spec fn saturate(x: int) -> i64 {
    if x > i64::MAX {
        i64::MAX
    } else if x < i64::MIN {
        i64::MIN
    } else {
        x as i64
    }
}

/// Division rounded toward zero, as Rust's `/` on signed integers does.
pub open spec fn quot(x: int, d: int) -> int {
    if x >= 0 {
        x / d
    } else {
        -((-x) / d)
    }
}

/// Saturating fixed-point sum.
pub open spec fn fx_add(a: i64, b: i64) -> i64 {
    saturate(a + b)
}

/// Saturating fixed-point difference.
pub open spec fn fx_sub(a: i64, b: i64) -> i64 {
    saturate(a - b)
}

/// Saturating fixed-point product, truncated toward zero.
pub open spec fn fx_mul(a: i64, b: i64) -> i64 {
    saturate(quot(a * b, ONE as int))
}

/// The leaky rectifier: identity on non-negative values, a tenth below zero.
pub open spec fn leaky_relu_spec(x: i64) -> i64 {
    if x >= 0 {
        x
    } else {
        fx_mul(x, TENTH)
    }
}

/// The derivative of the leaky rectifier.
pub open spec fn leaky_relu_prime_spec(x: i64) -> i64 {
    if x >= 0 {
        ONE
    } else {
        TENTH
    }
}

fn clamp_wide(x: i128) -> (r: i64)
    ensures
        r == saturate(x as int),
{
    if x > i64::MAX as i128 {
        i64::MAX
    } else if x < i64::MIN as i128 {
        i64::MIN
    } else {
        x as i64
    }
}

/// Saturating sum of two fixed-point values.
pub fn fixed_add(a: i64, b: i64) -> (r: i64)
    ensures
        r == fx_add(a, b),
{
    clamp_wide(a as i128 + b as i128)
}

/// Saturating difference of two fixed-point values.
pub fn fixed_sub(a: i64, b: i64) -> (r: i64)
    ensures
        r == fx_sub(a, b),
{
    clamp_wide(a as i128 - b as i128)
}

/// Saturating product of two fixed-point values, truncated toward zero.
pub fn fixed_mul(a: i64, b: i64) -> (r: i64)
    ensures
        r == fx_mul(a, b),
{
    proof {
        lemma_product_range(a, b);
    }
    let p: i128 = a as i128 * b as i128;
    let q: i128 = if p >= 0 {
        p / (ONE as i128)
    } else {
        -((-p) / (ONE as i128))
    };
    clamp_wide(q)
}

/// The leaky rectifier on a fixed-point value. Its result is never below a
/// tenth of its argument.
pub fn leaky_relu(x: i64) -> (r: i64)
    ensures
        r == leaky_relu_spec(x),
        10 * r >= x,
        x == 0 ==> r == 0,
{
    if x >= 0 {
        x
    } else {
        let r = fixed_mul(x, TENTH);
        assert(10 * r >= x) by {
            lemma_tenth_bound(x);
        }
        r
    }
}

/// The derivative of the leaky rectifier: one on non-negative values, a tenth
/// below zero.
pub fn leaky_relu_prime(x: i64) -> (r: i64)
    ensures
        r == leaky_relu_prime_spec(x),
{
    if x >= 0 {
        ONE
    } else {
        TENTH
    }
}

proof fn lemma_product_range(a: i64, b: i64)
    ensures
        -0x4000_0000_0000_0000_0000_0000_0000_0000int <= a * b <= 0x4000_0000_0000_0000_0000_0000_0000_0000int,
{
    let m: int = 0x8000_0000_0000_0000int;
    assert(-m <= a <= m && -m <= b <= m);
    assert(-(m * m) <= a * b <= m * m) by (nonlinear_arith)
        requires -m <= a <= m, -m <= b <= m;
}

proof fn lemma_tenth_bound(x: i64)
    requires
        x < 0,
    ensures
        10 * fx_mul(x, TENTH) >= x,
        fx_mul(x, TENTH) <= 0,
{
    let p: int = x * TENTH;
    assert(p == x * 100_000_000);
    let q: int = (-p) / (ONE as int);
    assert(-p == (-x) * 100_000_000) by (nonlinear_arith)
        requires p == x * 100_000_000;
    assert(q == (-x) / 10) by (nonlinear_arith)
        requires -p == (-x) * 100_000_000, q == (-p) / 1_000_000_000int, -x > 0;
    assert(10 * q <= -x) by (nonlinear_arith)
        requires q == (-x) / 10, -x > 0;
}

/// The leaky rectifier never falls below a tenth of its argument, maps zero to
/// zero, and its derivative is one at and above zero and a tenth below.
pub proof fn lemma_leaky_relu_bounds(x: i64)
    ensures
        10 * leaky_relu_spec(x) >= x,
        leaky_relu_spec(0) == 0,
        x < 0 ==> leaky_relu_prime_spec(x) == TENTH,
        x >= 0 ==> leaky_relu_prime_spec(x) == ONE,
{
    if x < 0 {
        lemma_tenth_bound(x);
    }
}

} // verus!
