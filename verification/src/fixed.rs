//! Fixed-point quantities: every depth, pressure, weight and ratio is an
//! `i64` counting millionths of its unit. Products and quotients are exact
//! up to one rounding, which is always downwards.

use vstd::prelude::*;
use vstd::arithmetic::div_mod::lemma_fundamental_div_mod;
use vstd::arithmetic::div_mod::lemma_fundamental_div_mod_converse;

verus! {

/// Raw value of the quantity 1.
pub const SCALE: i64 = 1_000_000;

/// Product of two quantities, rounded down to the next millionth.
pub open spec fn mul_floor(a: int, b: int) -> int {
    (a * b) / (SCALE as int)
}

/// Quotient of two quantities, rounded down to the next millionth.
/// Meaningful for a divisor other than zero.
pub open spec fn div_floor(a: int, b: int) -> int {
    if b > 0 {
        (a * SCALE) / b
    } else {
        ((-a) * SCALE) / (-b)
    }
}

/// A quotient by a positive divisor is no further from zero than the
/// dividend.
pub proof fn lemma_floor_div_bound(n: int, d: int, b: int)
    requires
        d > 0,
        -b <= n <= b,
    ensures
        -b <= n / d <= b,
{
    lemma_fundamental_div_mod(n, d);
    let q = n / d;
    assert(-b <= q <= b) by (nonlinear_arith)
        requires
            d > 0,
            -b <= n <= b,
            n == d * q + n % d,
            0 <= n % d < d,
    ;
}

/// A quotient by a positive divisor lies between zero and the dividend.
pub proof fn lemma_floor_div_between(n: int, d: int)
    requires
        d > 0,
    ensures
        n >= 0 ==> 0 <= n / d <= n,
        n <= 0 ==> n <= n / d <= 0,
{
    lemma_fundamental_div_mod(n, d);
    let q = n / d;
    let r = n % d;
    assert(n >= 0 ==> 0 <= q <= n) by (nonlinear_arith)
        requires
            d > 0,
            n == d * q + r,
            0 <= r < d,
    ;
    assert(n <= 0 ==> n <= q <= 0) by (nonlinear_arith)
        requires
            d > 0,
            n == d * q + r,
            0 <= r < d,
    ;
}

/// Floor of `n / d` for a positive divisor.
pub fn floor_div(n: i128, d: i128) -> (q: i128)
    requires
        d > 0,
        n > i128::MIN,
    ensures
        q == n / d,
{
    if n >= 0 {
        n / d
    } else {
        let m: i128 = -n;
        let q0: i128 = m / d;
        let r0: i128 = m % d;
        proof {
            lemma_fundamental_div_mod(m as int, d as int);
            if r0 == 0 {
                assert(n == (-q0) * d + 0) by (nonlinear_arith)
                    requires
                        m == d * q0 + r0,
                        r0 == 0,
                        n == -m,
                ;
                lemma_fundamental_div_mod_converse(n as int, d as int, -q0, 0);
            } else {
                assert(n == (-q0 - 1) * d + (d - r0)) by (nonlinear_arith)
                    requires
                        m == d * q0 + r0,
                        n == -m,
                ;
                lemma_fundamental_div_mod_converse(n as int, d as int, -q0 - 1, d - r0);
            }
        }
        if r0 == 0 {
            -q0
        } else {
            -q0 - 1
        }
    }
}

/// Product of two quantities, in millionths, rounded down.
pub fn fixed_mul(a: i64, b: i64) -> (r: i128)
    ensures
        r == mul_floor(a as int, b as int),
{
    let p: i128 = wide_product(a, b);
    floor_div(p, SCALE as i128)
}

/// Quotient of two quantities, in millionths, rounded down.
pub fn fixed_div(a: i64, b: i64) -> (r: i128)
    requires
        b != 0,
    ensures
        r == div_floor(a as int, b as int),
{
    if b > 0 {
        floor_div(wide_product(a, SCALE), b as i128)
    } else {
        floor_div(-wide_product(a, SCALE), -(b as i128))
    }
}

/// Product of two machine integers, which always fits the wider type.
pub fn wide_product(a: i64, b: i64) -> (p: i128)
    ensures
        p == a * b,
        -0x4000_0000_0000_0000_0000_0000_0000_0000 <= p <= 0x4000_0000_0000_0000_0000_0000_0000_0000,
{
    proof {
        lemma_product_bound(a as int, b as int, 0x8000_0000_0000_0000, 0x8000_0000_0000_0000);
    }
    (a as i128) * (b as i128)
}

/// The product of two bounded quantities is bounded by the product of the
/// bounds, taken as quantities.
pub proof fn lemma_mul_floor_bound(a: int, b: int, bound_a: int, bound_b: int, bound: int)
    requires
        -bound_a <= a <= bound_a,
        -bound_b <= b <= bound_b,
        bound_a * bound_b <= bound * SCALE,
    ensures
        -bound <= mul_floor(a, b) <= bound,
{
    lemma_product_bound(a, b, bound_a, bound_b);
    lemma_floor_div_within(a * b, SCALE as int, bound);
}

/// A product is bounded by the product of the bounds on its factors.
pub proof fn lemma_product_bound(a: int, b: int, bound_a: int, bound_b: int)
    requires
        -bound_a <= a <= bound_a,
        -bound_b <= b <= bound_b,
    ensures
        -(bound_a * bound_b) <= a * b <= bound_a * bound_b,
{
    assert(-(bound_a * bound_b) <= a * b <= bound_a * bound_b) by (nonlinear_arith)
        requires
            -bound_a <= a <= bound_a,
            -bound_b <= b <= bound_b,
    ;
}

/// A dividend within `bound` times the divisor has a quotient within
/// `bound`.
pub proof fn lemma_floor_div_within(n: int, d: int, bound: int)
    requires
        d > 0,
        -(bound * d) <= n <= bound * d,
    ensures
        -bound <= n / d <= bound,
{
    lemma_fundamental_div_mod(n, d);
    let q = n / d;
    assert(-bound <= q <= bound) by (nonlinear_arith)
        requires
            d > 0,
            -(bound * d) <= n <= bound * d,
            n == d * q + n % d,
            0 <= n % d < d,
    ;
}

/// A quotient of quantities is at most a million times the dividend.
pub proof fn lemma_div_floor_bound(a: int, b: int, bound: int)
    requires
        b != 0,
        -bound <= a <= bound,
    ensures
        -(bound * SCALE) <= div_floor(a, b) <= bound * SCALE,
{
    assert(-(bound * SCALE) <= a * SCALE <= bound * SCALE) by (nonlinear_arith)
        requires
            -bound <= a <= bound,
    ;
    assert(-(bound * SCALE) <= (-a) * SCALE <= bound * SCALE) by (nonlinear_arith)
        requires
            -bound <= a <= bound,
    ;
    if b > 0 {
        lemma_floor_div_bound(a * SCALE, b, bound * SCALE);
    } else {
        lemma_floor_div_bound((-a) * SCALE, -b, bound * SCALE);
    }
}

/// A mean of two values by nonnegative weights lies within any bound that
/// holds both.
pub proof fn lemma_weighted_mean_bound(w1: int, w2: int, a: int, b: int, bound: int)
    requires
        w1 >= 0,
        w2 >= 0,
        w1 + w2 > 0,
        -bound <= a <= bound,
        -bound <= b <= bound,
    ensures
        -bound <= (w1 * a + w2 * b) / (w1 + w2) <= bound,
{
    let n = w1 * a + w2 * b;
    let d = w1 + w2;
    assert(-(bound * d) <= n <= bound * d) by (nonlinear_arith)
        requires
            n == w1 * a + w2 * b,
            d == w1 + w2,
            w1 >= 0,
            w2 >= 0,
            -bound <= a <= bound,
            -bound <= b <= bound,
    ;
    lemma_floor_div_within(n, d, bound);
}

} // verus!
