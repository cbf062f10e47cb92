//! Quantized trigonometry on angles in millionths of a degree.
//!
//! The sine is Bhaskara's rational approximation, evaluated exactly in
//! integer arithmetic: for an angle of `x` micro-degrees in the first half
//! turn, with `p = x * (DEG180 - x)`, the sine is `4*p*SCALE / (BHASK_D - p)`.
//! The result is in fixed-point steps of `fixed::SCALE`, always within
//! `[-SCALE, SCALE]`, and hits the exact values 0 and +/-SCALE at the
//! quarter turns.

use vstd::prelude::*;
use crate::fixed::SCALE;

verus! {

/// A quarter turn in millionths of a degree.
pub const DEG90: i64 = 90_000_000;

/// A half turn in millionths of a degree.
pub const DEG180: i64 = 180_000_000;

/// A full turn in millionths of a degree.
pub const DEG360: i64 = 360_000_000;

/// Denominator constant of Bhaskara's approximation, in (micro-degree)^2.
pub const BHASK_D: i128 = 40_500_000_000_000_000;

/// Bhaskara's sine on the first half turn, scaled to `SCALE`.
pub open spec fn bhask(x: int) -> int {
    let p = x * (DEG180 - x);
    4 * p * SCALE / (BHASK_D - p)
}

/// Quantized sine of an angle in micro-degrees, in `[-SCALE, SCALE]`.
pub open spec fn sin_spec(a: int) -> int {
    let w = a % (DEG360 as int);
    if w <= DEG180 {
        bhask(w)
    } else {
        -bhask(w - DEG180)
    }
}

/// Quantized cosine: the sine a quarter turn ahead.
pub open spec fn cos_spec(a: int) -> int {
    sin_spec(a + DEG90)
}

/// The product `x * (DEG180 - x)` on the half turn stays within
/// `[0, DEG90 * DEG90]`.
proof fn lemma_quad_bound(x: int)
    requires
        0 <= x <= DEG180,
    ensures
        0 <= x * (DEG180 - x) <= 8_100_000_000_000_000,
{
    assert(0 <= x * (DEG180 - x) <= 8_100_000_000_000_000) by (nonlinear_arith)
        requires 0 <= x <= DEG180;
}

/// Bhaskara's numerator never exceeds the denominator times `SCALE`,
/// so the quotient stays within `[0, SCALE]`.
pub proof fn lemma_bhask_bounds(x: int)
    requires
        0 <= x <= DEG180,
    ensures
        0 <= bhask(x) <= SCALE,
{
    lemma_quad_bound(x);
    let p = x * (DEG180 - x);
    let num = 4 * p * SCALE;
    let den = BHASK_D - p;
    assert(num <= den * SCALE) by (nonlinear_arith)
        requires
            0 <= p <= 8_100_000_000_000_000,
            num == 4 * p * SCALE,
            den == BHASK_D - p,
    ;
    vstd::arithmetic::div_mod::lemma_div_is_ordered(num, den * SCALE, den);
    vstd::arithmetic::div_mod::lemma_div_multiples_vanish(SCALE as int, den);
    vstd::arithmetic::div_mod::lemma_div_pos_is_pos(num, den);
}

/// Away from the ends of the half turn Bhaskara's sine is at least one
/// fixed-point step; used to divide by `sin` when building a projection.
pub proof fn lemma_bhask_pos(x: int)
    requires
        500_000 <= x <= 179_500_000,
    ensures
        bhask(x) >= 1,
{
    let p = x * (DEG180 - x);
    assert((x - 500_000) * (179_500_000 - x) >= 0) by (nonlinear_arith)
        requires 500_000 <= x <= 179_500_000;
    assert(p == (x - 500_000) * (179_500_000 - x) + 89_750_000_000_000) by (nonlinear_arith)
        requires p == x * (DEG180 - x);
    lemma_quad_bound(x);
    let num = 4 * p * SCALE;
    let den = BHASK_D - p;
    assert(num >= den) by (nonlinear_arith)
        requires
            num == 4 * p * SCALE,
            den == BHASK_D - p,
            89_750_000_000_000 <= p <= 8_100_000_000_000_000,
    ;
    vstd::arithmetic::div_mod::lemma_div_is_ordered(den, num, den);
    vstd::arithmetic::div_mod::lemma_div_multiples_vanish(1, den);
}

/// Bhaskara's sine on machine integers, proved against `bhask`.
fn bhask_exec(x: i64) -> (r: i64)
    requires
        0 <= x <= DEG180,
    ensures
        r == bhask(x as int),
        0 <= r <= SCALE,
{
    proof {
        lemma_quad_bound(x as int);
        lemma_bhask_bounds(x as int);
    }
    let xi: i128 = x as i128;
    let p: i128 = xi * ((DEG180 as i128) - xi);
    let num: i128 = 4 * p * (SCALE as i128);
    let den: i128 = BHASK_D - p;
    let q: u128 = (num as u128) / (den as u128);
    assert(q == bhask(x as int));
    q as i64
}

/// Wrap an angle in micro-degrees into `[0, DEG360)`: the Euclidean
/// remainder by a full turn.
pub fn wrap_deg(a: i64) -> (r: i64)
    ensures
        r == (a as int) % (DEG360 as int),
        0 <= r < DEG360,
{
    proof {
        vstd::arithmetic::div_mod::lemma_mod_bound(a as int, DEG360 as int);
    }
    if a >= 0 {
        ((a as u64) % (DEG360 as u64)) as i64
    } else {
        let m: u64 = (((-(a as i128)) as u128) % (DEG360 as u128)) as u64;
        proof {
            let n = DEG360 as int;
            let na = -(a as int);
            vstd::arithmetic::div_mod::lemma_fundamental_div_mod(na, n);
            let k = na / n;
            assert(a as int == n * (-k) + (-(m as int))) by {
                assert(na == n * k + (m as int));
            }
            vstd::arithmetic::div_mod::lemma_mod_multiples_vanish(-k, -(m as int), n);
            if m == 0 {
                vstd::arithmetic::div_mod::lemma_small_mod(0nat, n as nat);
            } else {
                vstd::arithmetic::div_mod::lemma_mod_multiples_vanish(1, -(m as int), n);
                assert(n * 1 + (-(m as int)) == n - m as int);
                vstd::arithmetic::div_mod::lemma_small_mod((n - m as int) as nat, n as nat);
            }
        }
        if m == 0 {
            0
        } else {
            DEG360 - (m as i64)
        }
    }
}

/// Quantized sine of an angle in micro-degrees.
pub fn sin_fp(a: i64) -> (r: i64)
    ensures
        r == sin_spec(a as int),
        -SCALE <= r <= SCALE,
{
    let w = wrap_deg(a);
    if w <= DEG180 {
        bhask_exec(w)
    } else {
        proof {
            lemma_bhask_bounds(w - DEG180);
        }
        let b = bhask_exec(w - DEG180);
        -b
    }
}

/// Quantized cosine of an angle in micro-degrees.
pub fn cos_fp(a: i64) -> (r: i64)
    requires
        a <= i64::MAX - DEG90,
    ensures
        r == cos_spec(a as int),
        -SCALE <= r <= SCALE,
{
    sin_fp(a + DEG90)
}

} // verus!
