//! 16.16 fixed-point arithmetic.
//!
//! A fixed-point value is an `i64` holding `v * FX_ONE` for a real value `v`.
//! Contracts are stated with the mathematical (Euclidean) `/` of Verus, whose
//! quotient is floor division whenever the divisor is positive; the rounding
//! policy of the whole pipeline is therefore "round toward negative infinity".

use vstd::prelude::*;
use vstd::arithmetic::div_mod::lemma_fundamental_div_mod;
use vstd::arithmetic::div_mod::lemma_fundamental_div_mod_converse;
use vstd::arithmetic::div_mod::lemma_div_is_ordered;
use vstd::arithmetic::div_mod::lemma_mod_division_less_than_divisor;
use vstd::arithmetic::div_mod::lemma_div_multiples_vanish;
use vstd::arithmetic::mul::lemma_mul_inequality;

verus! {

/// The fixed-point unit: the representation of the real value 1.
pub const FX_ONE: i64 = 0x1_0000;

/// Magnitude bound on vertex positions accepted by the transform stage.
pub const FX_MAX_POS: i64 = 0x10_0000_0000;

/// Magnitude bound on model-matrix entries and on the coordinates and color
/// channels the rasterizer accepts; chosen so that all intermediate products
/// of the pipeline fit in `i128`.
pub const FX_LIMIT: i64 = 0x80_0000_0000;

/// Bound on a single product inside a 4-term fixed-point dot product,
/// so that partial sums stay inside `i128` and the quotient inside `i64`.
pub open spec fn prod_fits(p: int) -> bool {
    -0x1000_0000_0000_0000_0000 <= p <= 0x1000_0000_0000_0000_0000
}

/// Floor of `a / b` for a positive divisor (Euclidean quotient).
pub open spec fn fdiv(a: int, b: int) -> int {
    a / b
}

/// Smallest integer at or above `a / b`, for a positive divisor.
pub open spec fn cdiv(a: int, b: int) -> int {
    (a + b - 1) / b
}

/// Euclidean (floor) division of `i128` values by a positive divisor.
pub fn div_floor_i128(n: i128, d: i128) -> (q: i128)
    requires
        d >= 1,
        n > i128::MIN,
    ensures
        q == fdiv(n as int, d as int),
{
    if n >= 0 {
        let qu: u128 = (n as u128) / (d as u128);
        proof {
            lemma_div_is_ordered(0, n as int, d as int);
            lemma_div_is_ordered(qu as int, n as int, 1);
        }
        qu as i128
    } else {
        let m: u128 = (-n) as u128;
        let q0: u128 = m / (d as u128);
        let r0: u128 = m % (d as u128);
        let qi: i128 = q0 as i128;
        proof {
            lemma_fundamental_div_mod(m as int, d as int);
            lemma_mod_division_less_than_divisor(m as int, d as int);
            assert(m as int == (d as int) * (q0 as int) + (r0 as int));
        }
        if r0 == 0 {
            proof {
                assert((-(q0 as int)) * (d as int) + 0 == -((d as int) * (q0 as int)))
                    by (nonlinear_arith);
                lemma_fundamental_div_mod_converse(
                    n as int,
                    d as int,
                    -(q0 as int),
                    0,
                );
            }
            -qi
        } else {
            proof {
                assert((-(q0 as int) - 1) * (d as int) + ((d as int) - (r0 as int))
                    == -((d as int) * (q0 as int) + (r0 as int))) by (nonlinear_arith);
                lemma_fundamental_div_mod_converse(
                    n as int,
                    d as int,
                    -(q0 as int) - 1,
                    d - r0,
                );
            }
            -qi - 1
        }
    }
}

/// The 4-term fixed-point dot product, before rescaling by `FX_ONE`.
pub open spec fn dot4_spec(a0: int, b0: int, a1: int, b1: int, a2: int, b2: int, a3: int, b3: int) -> int {
    a0 * b0 + a1 * b1 + a2 * b2 + a3 * b3
}

/// A fixed-point 4-term dot product: multiplies pairwise, sums exactly in
/// `i128`, and rescales by `FX_ONE` with floor rounding.
pub fn dot4(a0: i64, b0: i64, a1: i64, b1: i64, a2: i64, b2: i64, a3: i64, b3: i64) -> (r: i64)
    requires
        prod_fits(a0 * b0),
        prod_fits(a1 * b1),
        prod_fits(a2 * b2),
        prod_fits(a3 * b3),
    ensures
        r == fdiv(dot4_spec(a0 as int, b0 as int, a1 as int, b1 as int, a2 as int, b2 as int, a3 as int, b3 as int), FX_ONE as int),
{
    let s: i128 = (a0 as i128) * (b0 as i128) + (a1 as i128) * (b1 as i128)
        + (a2 as i128) * (b2 as i128) + (a3 as i128) * (b3 as i128);
    let q: i128 = div_floor_i128(s, FX_ONE as i128);
    proof {
        lemma_fdiv_bound(s as int, FX_ONE as int, 0x4000_0000_0000_0000);
    }
    q as i64
}

/// A fixed-point 4-term dot product whose operands carry uniform magnitude
/// bounds `la` and `lb` small enough for every intermediate product to fit.
pub fn dot4_bounded(
    a0: i64, b0: i64, a1: i64, b1: i64, a2: i64, b2: i64, a3: i64, b3: i64,
    Ghost(la): Ghost<int>, Ghost(lb): Ghost<int>,
) -> (r: i64)
    requires
        0 <= la,
        0 <= lb,
        la * lb <= 0x1000_0000_0000_0000_0000,
        -la <= a0 <= la,
        -la <= a1 <= la,
        -la <= a2 <= la,
        -la <= a3 <= la,
        -lb <= b0 <= lb,
        -lb <= b1 <= lb,
        -lb <= b2 <= lb,
        -lb <= b3 <= lb,
    ensures
        r == fdiv(dot4_spec(a0 as int, b0 as int, a1 as int, b1 as int, a2 as int, b2 as int, a3 as int, b3 as int), FX_ONE as int),
{
    proof {
        lemma_mul_bound(a0 as int, b0 as int, la, lb);
        lemma_mul_bound(a1 as int, b1 as int, la, lb);
        lemma_mul_bound(a2 as int, b2 as int, la, lb);
        lemma_mul_bound(a3 as int, b3 as int, la, lb);
    }
    dot4(a0, b0, a1, b1, a2, b2, a3, b3)
}

/// Floor division of a value between `lo * d` and `hi * d` lands in `[lo, hi]`.
pub proof fn lemma_fdiv_range(a: int, d: int, lo: int, hi: int)
    requires
        d >= 1,
        lo * d <= a <= hi * d,
    ensures
        lo <= fdiv(a, d) <= hi,
{
    assert(lo * d == d * lo) by (nonlinear_arith);
    assert(hi * d == d * hi) by (nonlinear_arith);
    lemma_div_is_ordered(lo * d, a, d);
    lemma_div_multiples_vanish(lo, d);
    lemma_div_is_ordered(a, hi * d, d);
    lemma_div_multiples_vanish(hi, d);
}

/// Floor division keeps a symmetric magnitude bound: if `|a| <= bound * d`
/// then `|a / d| <= bound`.
pub proof fn lemma_fdiv_bound(a: int, d: int, bound: int)
    requires
        d >= 1,
        bound >= 0,
        -(bound * d) <= a <= bound * d,
    ensures
        -bound <= fdiv(a, d) <= bound,
{
    assert((-bound) * d == -(bound * d)) by (nonlinear_arith);
    lemma_fdiv_range(a, d, -bound, bound);
}

/// Magnitude bound on a product from magnitude bounds on its factors.
pub proof fn lemma_mul_bound(a: int, b: int, abound: int, bbound: int)
    requires
        -abound <= a <= abound,
        -bbound <= b <= bbound,
        0 <= abound,
        0 <= bbound,
    ensures
        -(abound * bbound) <= a * b <= abound * bbound,
{
    if a >= 0 {
        if b >= 0 {
            lemma_mul_inequality(a, abound, b);
            lemma_mul_inequality(b, bbound, abound);
            assert(a * b >= 0) by (nonlinear_arith)
                requires a >= 0 && b >= 0;
        } else {
            lemma_mul_inequality(a, abound, -b);
            lemma_mul_inequality(-b, bbound, abound);
            assert(a * (-b) == -(a * b)) by (nonlinear_arith);
            assert(a * b <= 0) by (nonlinear_arith)
                requires a >= 0 && b <= 0;
        }
    } else {
        if b >= 0 {
            lemma_mul_inequality(-a, abound, b);
            lemma_mul_inequality(b, bbound, abound);
            assert((-a) * b == -(a * b)) by (nonlinear_arith);
            assert(a * b <= 0) by (nonlinear_arith)
                requires a <= 0 && b >= 0;
        } else {
            lemma_mul_inequality(-a, abound, -b);
            lemma_mul_inequality(-b, bbound, abound);
            assert((-a) * (-b) == a * b) by (nonlinear_arith);
            assert(a * b >= 0) by (nonlinear_arith)
                requires a <= 0 && b <= 0;
        }
    }
}

} // verus!
