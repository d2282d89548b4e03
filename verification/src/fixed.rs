//! Fixed-point scalar arithmetic.
//!
//! Every scalar in this library is an `i64` holding a real number scaled by
//! `FX_ONE`: the raw value `v` stands for the real `v / FX_ONE`. Products,
//! quotients and square roots are computed in 128-bit intermediates and
//! rounded toward zero; the spec functions below state the results exactly.

use vstd::prelude::*;

verus! {

/// The fixed-point scale: raw value `FX_ONE` stands for the real number 1.
pub const FX_ONE: i64 = 65536;

/// Largest raw magnitude the product and quotient routines admit (2^39).
pub const FX_BOUND: i64 = 549755813888;

/// Largest argument the fixed-point square root admits (2^57).
pub const FX_SQRT_MAX: i64 = 144115188075855872;

/// Magnitude of an integer.
pub open spec fn iabs(a: int) -> int {
    if a < 0 {
        -a
    } else {
        a
    }
}

/// Division rounded toward zero (the rounding of the executable code),
/// as opposed to the Euclidean `/` of spec arithmetic.
pub open spec fn tdiv(a: int, b: int) -> int {
    if (a < 0) == (b < 0) {
        iabs(a) / iabs(b)
    } else {
        -(iabs(a) / iabs(b))
    }
}

/// The fixed-point product of raw scalars `a` and `b`.
pub open spec fn fx_mul(a: int, b: int) -> int {
    tdiv(a * b, FX_ONE as int)
}

/// The fixed-point quotient of raw scalars `a` and `b`.
pub open spec fn fx_div(a: int, b: int) -> int {
    tdiv(a * (FX_ONE as int), b)
}

/// Floor of the square root of `n` (0 for negative arguments).
pub open spec fn sqrt_floor(n: int) -> int
    decreases n,
{
    if n <= 0 {
        0
    } else {
        let r = sqrt_floor(n - 1);
        if (r + 1) * (r + 1) <= n {
            r + 1
        } else {
            r
        }
    }
}

/// The fixed-point square root of the raw scalar `a`: since the real value of
/// `a` is `a / FX_ONE`, the raw root is `floor(sqrt(a * FX_ONE))`.
pub open spec fn fx_sqrt(a: int) -> int {
    sqrt_floor(a * (FX_ONE as int))
}

/// `sqrt_floor(n)` is the unique `r >= 0` with `r * r <= n < (r + 1) * (r + 1)`.
pub proof fn lemma_sqrt_floor_bounds(n: int)
    requires
        n >= 0,
    ensures
        0 <= sqrt_floor(n),
        sqrt_floor(n) * sqrt_floor(n) <= n,
        n < (sqrt_floor(n) + 1) * (sqrt_floor(n) + 1),
    decreases n,
{
    if n > 0 {
        lemma_sqrt_floor_bounds(n - 1);
        let r = sqrt_floor(n - 1);
        if (r + 1) * (r + 1) <= n {
            assert((r + 2) * (r + 2) > n) by (nonlinear_arith)
                requires
                    r >= 0,
                    n - 1 < (r + 1) * (r + 1),
            ;
        }
    }
}

/// Any `r >= 0` with `r * r <= n < (r + 1) * (r + 1)` is `sqrt_floor(n)`.
pub proof fn lemma_sqrt_floor_unique(n: int, r: int)
    requires
        n >= 0,
        r >= 0,
        r * r <= n,
        n < (r + 1) * (r + 1),
    ensures
        r == sqrt_floor(n),
{
    let s = sqrt_floor(n);
    lemma_sqrt_floor_bounds(n);
    if r < s {
        assert((r + 1) * (r + 1) <= s * s) by (nonlinear_arith)
            requires
                0 <= r,
                r < s,
        ;
    }
    if s < r {
        assert((s + 1) * (s + 1) <= r * r) by (nonlinear_arith)
            requires
                0 <= s,
                s < r,
        ;
    }
}

/// Truncated division shrinks magnitudes: `|tdiv(a, b)| <= |a| / b <= |a|`.
pub proof fn lemma_tdiv_shrinks(a: int, b: int)
    requires
        b >= 1,
    ensures
        iabs(tdiv(a, b)) == iabs(a) / b,
        iabs(tdiv(a, b)) <= iabs(a),
        a >= 0 ==> tdiv(a, b) >= 0,
        a <= 0 ==> tdiv(a, b) <= 0,
{
    vstd::arithmetic::div_mod::lemma_div_is_ordered_by_denominator(iabs(a), 1, b);
    vstd::arithmetic::div_mod::lemma_div_pos_is_pos(iabs(a), b);
}

/// Truncated division by a positive divisor is monotone in the dividend.
pub proof fn lemma_tdiv_mono(a1: int, a2: int, b: int)
    requires
        b >= 1,
        a1 <= a2,
    ensures
        tdiv(a1, b) <= tdiv(a2, b),
{
    lemma_tdiv_shrinks(a1, b);
    lemma_tdiv_shrinks(a2, b);
    if a1 >= 0 {
        vstd::arithmetic::div_mod::lemma_div_is_ordered(a1, a2, b);
    } else if a2 < 0 {
        vstd::arithmetic::div_mod::lemma_div_is_ordered(-a2, -a1, b);
    }
}

/// An upper bound on the magnitude of a truncated quotient, from an upper
/// bound on the magnitude of the dividend.
pub proof fn lemma_tdiv_bound(a: int, b: int, m: int)
    requires
        b >= 1,
        iabs(a) <= m,
    ensures
        iabs(tdiv(a, b)) <= m / b,
{
    lemma_tdiv_shrinks(a, b);
    vstd::arithmetic::div_mod::lemma_div_is_ordered(iabs(a), m, b);
}

/// An upper bound on the magnitude of a fixed-point product, from upper
/// bounds on the magnitudes of the factors.
pub proof fn lemma_fx_mul_bound(a: int, b: int, m: int, n: int)
    requires
        iabs(a) <= m,
        iabs(b) <= n,
    ensures
        iabs(fx_mul(a, b)) <= m * n / (FX_ONE as int),
{
    assert(iabs(a * b) <= m * n) by (nonlinear_arith)
        requires
            iabs(a) <= m,
            iabs(b) <= n,
    ;
    lemma_tdiv_bound(a * b, FX_ONE as int, m * n);
}

/// A fixed-point product with a factor of at most one shrinks the other
/// factor.
pub proof fn lemma_fx_mul_le(a: int, b: int)
    requires
        0 <= a <= FX_ONE,
        0 <= b,
    ensures
        0 <= fx_mul(a, b) <= b,
{
    let s = FX_ONE as int;
    vstd::arithmetic::mul::lemma_mul_nonnegative(a, b);
    lemma_tdiv_shrinks(a * b, s);
    vstd::arithmetic::mul::lemma_mul_inequality(a, s, b);
    vstd::arithmetic::div_mod::lemma_div_is_ordered(a * b, s * b, s);
    vstd::arithmetic::div_mod::lemma_div_multiples_vanish(b, s);
}

/// Scaling by exactly one is the identity.
pub proof fn lemma_fx_mul_one(b: int)
    requires
        0 <= b,
    ensures
        fx_mul(FX_ONE as int, b) == b,
{
    let s = FX_ONE as int;
    vstd::arithmetic::mul::lemma_mul_nonnegative(s, b);
    vstd::arithmetic::div_mod::lemma_div_multiples_vanish(b, s);
}

/// An upper bound on the magnitude of a fixed-point quotient, from an upper
/// bound on the magnitude of the dividend and a lower bound on the divisor.
pub proof fn lemma_fx_div_bound(a: int, b: int, m: int)
    requires
        b != 0,
        iabs(a) <= m,
    ensures
        iabs(fx_div(a, b)) <= m * (FX_ONE as int),
{
    let s = FX_ONE as int;
    assert(iabs(a * s) == iabs(a) * s);
    lemma_tdiv_bound(a * s, iabs(b), m * s);
    assert(iabs(tdiv(a * s, b)) == iabs(tdiv(a * s, iabs(b))));
    vstd::arithmetic::div_mod::lemma_div_is_ordered_by_denominator(m * s, 1, iabs(b));
}

/// Truncated division of a 128-bit dividend by a positive divisor.
pub(crate) fn tdiv128(a: i128, b: i128) -> (r: i128)
    requires
        b > 0,
        a > i128::MIN,
    ensures
        r == tdiv(a as int, b as int),
{
    if a >= 0 {
        let q: u128 = (a as u128) / (b as u128);
        assert(q <= a as u128) by {
            lemma_tdiv_shrinks(a as int, b as int);
        }
        q as i128
    } else {
        let q: u128 = ((-a) as u128) / (b as u128);
        assert(q <= (-a) as u128) by {
            lemma_tdiv_shrinks(-(a as int), b as int);
        }
        -(q as i128)
    }
}

/// The fixed-point product of two raw scalars, rounded toward zero.
pub fn mul_fx(a: i64, b: i64) -> (r: i64)
    requires
        -FX_BOUND <= a <= FX_BOUND,
        -FX_BOUND <= b <= FX_BOUND,
    ensures
        r == fx_mul(a as int, b as int),
        iabs(r as int) <= iabs(a as int) * iabs(b as int) / (FX_ONE as int),
{
    proof {
        assert(iabs(a as int * b as int) <= FX_BOUND as int * FX_BOUND as int) by (nonlinear_arith)
            requires
                -FX_BOUND <= a <= FX_BOUND,
                -FX_BOUND <= b <= FX_BOUND,
        ;
        lemma_fx_mul_bound(a as int, b as int, iabs(a as int), iabs(b as int));
        lemma_tdiv_bound(a as int * b as int, FX_ONE as int, FX_BOUND as int * FX_BOUND as int);
    }
    let p: i128 = (a as i128) * (b as i128);
    let q = tdiv128(p, FX_ONE as i128);
    q as i64
}

/// The fixed-point quotient of two raw scalars, rounded toward zero.
pub fn div_fx(a: i64, b: i64) -> (r: i64)
    requires
        b != 0,
        -FX_BOUND <= a <= FX_BOUND,
    ensures
        r == fx_div(a as int, b as int),
        iabs(r as int) <= iabs(a as int) * (FX_ONE as int),
{
    proof {
        lemma_fx_div_bound(a as int, b as int, iabs(a as int));
        assert(iabs(a as int) * (FX_ONE as int) <= FX_BOUND as int * (FX_ONE as int))
            by (nonlinear_arith)
            requires
                -FX_BOUND <= a <= FX_BOUND,
        ;
    }
    let num: i128 = (a as i128) * (FX_ONE as i128);
    if b > 0 {
        let q = tdiv128(num, b as i128);
        q as i64
    } else {
        let q = tdiv128(num, -(b as i128));
        proof {
            assert(tdiv(num as int, -(b as int)) == -tdiv(num as int, b as int));
        }
        (-q) as i64
    }
}

/// Floor of the square root of a 128-bit value below 2^100.
fn isqrt128(n: u128) -> (r: u128)
    requires
        n < 1267650600228229401496703205376u128,
    ensures
        r == sqrt_floor(n as int),
{
    let mut lo: u128 = 0;
    let mut hi: u128 = 1125899906842624u128;
    proof {
        assert((hi as int) * (hi as int) > n as int) by (nonlinear_arith)
            requires
                hi == 1125899906842624u128,
                n < 1267650600228229401496703205376u128,
        ;
    }
    while hi - lo > 1
        invariant
            lo < hi,
            hi <= 1125899906842624u128,
            (lo as int) * (lo as int) <= n as int,
            (hi as int) * (hi as int) > n as int,
        decreases hi - lo,
    {
        let mid = lo + (hi - lo) / 2;
        proof {
            assert((mid as int) * (mid as int) < 1267650600228229401496703205377int)
                by (nonlinear_arith)
                requires
                    mid <= 1125899906842624u128,
            ;
        }
        if mid * mid <= n {
            lo = mid;
        } else {
            hi = mid;
        }
    }
    proof {
        lemma_sqrt_floor_unique(n as int, lo as int);
    }
    lo
}

/// The fixed-point square root of a non-negative raw scalar.
pub fn sqrt_fx(a: i64) -> (r: i64)
    requires
        0 <= a <= FX_SQRT_MAX,
    ensures
        r == fx_sqrt(a as int),
        0 <= r,
        (r as int) * (r as int) <= (a as int) * (FX_ONE as int),
        (a as int) * (FX_ONE as int) < (r as int + 1) * (r as int + 1),
{
    proof {
        assert((a as int) * (FX_ONE as int) <= 9444732965739290427392int);
    }
    let n: u128 = (a as u128) * (FX_ONE as u128);
    let r = isqrt128(n);
    proof {
        lemma_sqrt_floor_bounds(n as int);
        assert(r < 137438953472u128) by (nonlinear_arith)
            requires
                (r as int) * (r as int) <= n as int,
                n <= 9444732965739290427392u128,
                r >= 0,
        ;
    }
    r as i64
}

} // verus!
