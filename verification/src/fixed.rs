//! Fixed-point scalar arithmetic.
//!
//! A scalar is an `i128` counting millionths of a unit, so `1_000_000`
//! stands for one. Products and quotients are computed on magnitudes and
//! rounded toward zero, which gives every operation an exact integer
//! specification (`mul_fx`, `div_fx`, `sqrt_fx`).

use vstd::prelude::*;

verus! {

/// Number of fixed-point quanta per unit: scalars count millionths.
pub const SCALE: i128 = 1_000_000;

/// Largest magnitude accepted by `fmul`; products of two such stay inside `i128`.
pub const FMUL_ARG_MAX: i128 = 4_000_000_000_000_000_000;

/// Largest magnitude accepted by `fdiv` for the dividend and the divisor.
pub const FDIV_ARG_MAX: i128 = 10_000_000_000_000_000_000_000_000_000_000;

/// Largest argument accepted by `fsqrt`.
pub const FSQRT_ARG_MAX: i128 = 10_000_000_000_000_000_000_000_000_000_000;

/// Magnitude of an integer.
pub open spec fn abs_i(a: int) -> int {
    if a >= 0 {
        a
    } else {
        -a
    }
}

/// The smaller of two integers.
pub open spec fn min_i(a: int, b: int) -> int {
    if a <= b {
        a
    } else {
        b
    }
}

/// The larger of two integers.
pub open spec fn max_i(a: int, b: int) -> int {
    if a >= b {
        a
    } else {
        b
    }
}

/// `a` forced into the interval `[lo, hi]`.
pub open spec fn clamp_i(a: int, lo: int, hi: int) -> int {
    if a < lo {
        lo
    } else if a > hi {
        hi
    } else {
        a
    }
}

/// Division by a positive divisor rounded toward zero, as hardware division
/// of magnitudes computes it. (Spec-mode `/` is Euclidean, which differs on
/// negative dividends.)
pub open spec fn tdiv(a: int, b: int) -> int {
    if a >= 0 {
        a / b
    } else {
        -((-a) / b)
    }
}

/// The fixed-point product of two scalars.
pub open spec fn mul_fx(a: int, b: int) -> int {
    tdiv(a * b, SCALE as int)
}

/// The fixed-point quotient of two scalars.
pub open spec fn div_fx(a: int, b: int) -> int {
    if b >= 0 {
        tdiv(a * (SCALE as int), b)
    } else {
        tdiv(-(a * (SCALE as int)), -b)
    }
}

/// `r` is the integer square root of `n`.
pub open spec fn is_isqrt(n: int, r: int) -> bool {
    0 <= r && r * r <= n && n < (r + 1) * (r + 1)
}

/// The integer square root of `n` (meaningful for `n >= 0`).
pub open spec fn isqrt_s(n: int) -> int {
    choose|r: int| is_isqrt(n, r)
}

/// The fixed-point square root of a scalar: `sqrt_fx(a)/SCALE` approximates
/// the real square root of `a/SCALE` from below.
pub open spec fn sqrt_fx(a: int) -> int {
    isqrt_s(a * (SCALE as int))
}

/// An integer square root is unique when it exists.
pub proof fn lemma_isqrt_unique(n: int, r1: int, r2: int)
    by (nonlinear_arith)
    requires
        is_isqrt(n, r1),
        is_isqrt(n, r2),
    ensures
        r1 == r2,
{
}

/// Every nonnegative integer has an integer square root, so `isqrt_s`
/// satisfies its defining property.
pub proof fn lemma_isqrt_exists(n: int)
    requires
        n >= 0,
    ensures
        is_isqrt(n, isqrt_s(n)),
    decreases n,
{
    if n == 0 {
        assert(is_isqrt(0, 0)) by (nonlinear_arith);
    } else {
        lemma_isqrt_exists(n - 1);
        let r = isqrt_s(n - 1);
        if (r + 1) * (r + 1) <= n {
            assert(is_isqrt(n, r + 1)) by (nonlinear_arith)
                requires
                    is_isqrt(n - 1, r),
                    (r + 1) * (r + 1) <= n,
            ;
        } else {
            assert(is_isqrt(n, r)) by (nonlinear_arith)
                requires
                    is_isqrt(n - 1, r),
                    (r + 1) * (r + 1) > n,
            ;
        }
    }
    assert(exists|r: int| is_isqrt(n, r));
}

/// The defining property of `sqrt_fx` on nonnegative arguments.
pub proof fn lemma_sqrt_fx_props(a: int)
    requires
        a >= 0,
    ensures
        is_isqrt(a * (SCALE as int), sqrt_fx(a)),
        sqrt_fx(a) >= 0,
{
    assert(a * (SCALE as int) >= 0) by (nonlinear_arith)
        requires
            a >= 0,
    ;
    lemma_isqrt_exists(a * (SCALE as int));
}

/// An upper bound on a fixed-point square root, from a square above it.
pub proof fn lemma_sqrt_fx_upper(a: int, b: int)
    requires
        0 <= a,
        0 <= b,
        a * (SCALE as int) <= b * b,
    ensures
        0 <= sqrt_fx(a) <= b,
{
    lemma_sqrt_fx_props(a);
    assert(sqrt_fx(a) <= b) by (nonlinear_arith)
        requires
            is_isqrt(a * (SCALE as int), sqrt_fx(a)),
            a * (SCALE as int) <= b * b,
            0 <= b,
    ;
}

/// Truncating division never grows the magnitude of the dividend.
pub proof fn lemma_tdiv_abs_le(a: int, b: int)
    by (nonlinear_arith)
    requires
        b >= 1,
    ensures
        abs_i(tdiv(a, b)) <= abs_i(a),
        b * abs_i(tdiv(a, b)) <= abs_i(a),
        a >= 0 ==> tdiv(a, b) >= 0,
        a <= 0 ==> tdiv(a, b) <= 0,
{
}

/// Truncating division is monotone in the dividend.
pub proof fn lemma_tdiv_mono(a1: int, a2: int, b: int)
    by (nonlinear_arith)
    requires
        b >= 1,
        a1 <= a2,
    ensures
        tdiv(a1, b) <= tdiv(a2, b),
{
}

/// Multiplying by the fixed-point one is the identity, exactly.
pub proof fn lemma_mul_fx_one(a: int)
    ensures
        mul_fx(a, SCALE as int) == a,
{
    if a >= 0 {
        assert((a * 1_000_000) / 1_000_000 == a) by (nonlinear_arith);
    } else {
        assert(-(a * 1_000_000) == (-a) * 1_000_000);
        assert(((-a) * 1_000_000) / 1_000_000 == -a) by (nonlinear_arith);
    }
}

/// Negating one factor negates a fixed-point product exactly, because
/// truncation is symmetric about zero.
pub proof fn lemma_mul_fx_neg(a: int, b: int)
    by (nonlinear_arith)
    ensures
        mul_fx(-a, b) == -mul_fx(a, b),
{
}

/// A magnitude bound on a fixed-point product, from bounds on its factors.
pub proof fn lemma_mul_fx_bound(a: int, b: int, xb: int, yb: int)
    by (nonlinear_arith)
    requires
        abs_i(a) <= xb,
        abs_i(b) <= yb,
    ensures
        abs_i(mul_fx(a, b)) * (SCALE as int) <= xb * yb,
        abs_i(mul_fx(a, b)) <= tdiv(xb * yb, SCALE as int),
{
}

/// The fixed-point product of two scalars, rounded toward zero.
pub fn fmul(a: i128, b: i128) -> (r: i128)
    requires
        -FMUL_ARG_MAX <= a <= FMUL_ARG_MAX,
        -FMUL_ARG_MAX <= b <= FMUL_ARG_MAX,
    ensures
        r == mul_fx(a as int, b as int),
{
    let ma: u128 = if a < 0 {
        (-a) as u128
    } else {
        a as u128
    };
    let mb: u128 = if b < 0 {
        (-b) as u128
    } else {
        b as u128
    };
    assert(ma * mb <= (FMUL_ARG_MAX as int) * (FMUL_ARG_MAX as int)) by (nonlinear_arith)
        requires
            0 <= ma <= FMUL_ARG_MAX,
            0 <= mb <= FMUL_ARG_MAX,
    ;
    let p: u128 = ma * mb;
    let q: u128 = p / 1_000_000;
    assert(q <= p) by (nonlinear_arith)
        requires
            q == p / 1_000_000,
    ;
    if (a < 0) != (b < 0) {
        proof {
            assert((a as int) * (b as int) == -((ma as int) * (mb as int))) by (nonlinear_arith)
                requires
                    (a < 0 && b >= 0 && ma == -a && mb == b) || (a >= 0 && b < 0 && ma == a && mb
                        == -b),
            ;
        }
        -(q as i128)
    } else {
        proof {
            assert((a as int) * (b as int) == (ma as int) * (mb as int)) by (nonlinear_arith)
                requires
                    (a < 0 && b < 0 && ma == -a && mb == -b) || (a >= 0 && b >= 0 && ma == a && mb
                        == b),
            ;
        }
        q as i128
    }
}

/// The fixed-point quotient of two scalars, rounded toward zero.
pub fn fdiv(a: i128, b: i128) -> (r: i128)
    requires
        -FDIV_ARG_MAX <= a <= FDIV_ARG_MAX,
        -FDIV_ARG_MAX <= b <= FDIV_ARG_MAX,
        b != 0,
    ensures
        r == div_fx(a as int, b as int),
{
    let ma: u128 = if a < 0 {
        (-a) as u128
    } else {
        a as u128
    };
    let mb: u128 = if b < 0 {
        (-b) as u128
    } else {
        b as u128
    };
    let pa: u128 = ma * 1_000_000;
    let q: u128 = pa / mb;
    assert(q <= pa) by (nonlinear_arith)
        requires
            q == pa / mb,
            mb >= 1,
    ;
    proof {
        if b >= 0 {
            if a >= 0 {
                assert((a as int) * (SCALE as int) == pa);
            } else {
                assert((a as int) * (SCALE as int) == -(pa as int)) by (nonlinear_arith)
                    requires
                        a < 0,
                        ma == -a,
                        pa == ma * 1_000_000,
                        SCALE == 1_000_000,
                ;
            }
        } else {
            if a >= 0 {
                assert(-((a as int) * (SCALE as int)) == -(pa as int));
            } else {
                assert(-((a as int) * (SCALE as int)) == pa) by (nonlinear_arith)
                    requires
                        a < 0,
                        ma == -a,
                        pa == ma * 1_000_000,
                        SCALE == 1_000_000,
                ;
            }
        }
    }
    if (a < 0) != (b < 0) {
        -(q as i128)
    } else {
        q as i128
    }
}

/// The integer square root, by binary search.
fn isqrt_u(n: u128) -> (r: u128)
    requires
        n < 0x4000_0000_0000_0000_0000_0000_0000_0000,
    ensures
        is_isqrt(n as int, r as int),
        r <= 0x7FFF_FFFF_FFFF_FFFF,
{
    let mut lo: u128 = 0;
    let mut hi: u128 = 0x7FFF_FFFF_FFFF_FFFF;
    assert(((hi + 1) as int) * ((hi + 1) as int) > n) by (nonlinear_arith)
        requires
            hi == 0x7FFF_FFFF_FFFF_FFFF,
            n < 0x4000_0000_0000_0000_0000_0000_0000_0000,
    ;
    while lo < hi
        invariant
            lo <= hi,
            hi <= 0x7FFF_FFFF_FFFF_FFFF,
            (lo as int) * (lo as int) <= n,
            (n as int) < ((hi + 1) as int) * ((hi + 1) as int),
        decreases hi - lo,
    {
        let mid: u128 = lo + (hi - lo + 1) / 2;
        assert(lo < mid <= hi);
        assert(mid * mid < u128::MAX) by (nonlinear_arith)
            requires
                mid <= 0x7FFF_FFFF_FFFF_FFFF,
        ;
        if mid * mid <= n {
            lo = mid;
        } else {
            hi = mid - 1;
        }
    }
    lo
}

/// The fixed-point square root of a nonnegative scalar.
pub fn fsqrt(a: i128) -> (r: i128)
    requires
        0 <= a <= FSQRT_ARG_MAX,
    ensures
        r == sqrt_fx(a as int),
        r >= 0,
{
    let au: u128 = a as u128;
    let n: u128 = au * 1_000_000;
    assert(n < 0x4000_0000_0000_0000_0000_0000_0000_0000) by (nonlinear_arith)
        requires
            n == au * 1_000_000,
            au <= FSQRT_ARG_MAX,
    ;
    let r = isqrt_u(n);
    proof {
        lemma_sqrt_fx_props(a as int);
        lemma_isqrt_unique((a as int) * (SCALE as int), r as int, sqrt_fx(a as int));
    }
    r as i128
}

/// The smaller of two scalars.
pub fn fmin(a: i128, b: i128) -> (r: i128)
    ensures
        r == min_i(a as int, b as int),
{
    if a <= b {
        a
    } else {
        b
    }
}

/// The larger of two scalars.
pub fn fmax(a: i128, b: i128) -> (r: i128)
    ensures
        r == max_i(a as int, b as int),
{
    if a >= b {
        a
    } else {
        b
    }
}

/// `a` forced into the interval `[lo, hi]`.
pub fn fclamp(a: i128, lo: i128, hi: i128) -> (r: i128)
    requires
        lo <= hi,
    ensures
        r == clamp_i(a as int, lo as int, hi as int),
{
    if a < lo {
        lo
    } else if a > hi {
        hi
    } else {
        a
    }
}

} // verus!
