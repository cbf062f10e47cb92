//! Fixed-point vectors and 4x4 matrices for the camera transform.
//!
//! Matrix entries are `i128` in `fixed::SCALE` steps, row-major: entry
//! `mIJ` is row `I`, column `J`, and matrices multiply column vectors.
//! `GMat` is the ghost-level image of a matrix over mathematical
//! integers, so contracts can state entry formulas without casts.

use vstd::prelude::*;
use crate::fixed::{
    SCALE, tdiv, div_trunc, isqrt, lemma_tdiv_bound, lemma_mul_bound, sqrt_spec,
};

verus! {

/// A three-component fixed-point vector, in micro-units.
#[derive(Clone, Copy, PartialEq, Eq, Structural, Debug)]
pub struct V3 {
    pub x: i64,
    pub y: i64,
    pub z: i64,
}

/// A row-major 4x4 fixed-point matrix.
#[derive(Clone, Copy, PartialEq, Eq, Structural, Debug)]
pub struct Mat4 {
    pub m00: i128,
    pub m01: i128,
    pub m02: i128,
    pub m03: i128,
    pub m10: i128,
    pub m11: i128,
    pub m12: i128,
    pub m13: i128,
    pub m20: i128,
    pub m21: i128,
    pub m22: i128,
    pub m23: i128,
    pub m30: i128,
    pub m31: i128,
    pub m32: i128,
    pub m33: i128,
}

/// The ghost image of a `Mat4` over mathematical integers.
pub struct GMat {
    pub g00: int,
    pub g01: int,
    pub g02: int,
    pub g03: int,
    pub g10: int,
    pub g11: int,
    pub g12: int,
    pub g13: int,
    pub g20: int,
    pub g21: int,
    pub g22: int,
    pub g23: int,
    pub g30: int,
    pub g31: int,
    pub g32: int,
    pub g33: int,
}

/// Lift a matrix to its ghost image.
pub open spec fn mat_to_g(m: Mat4) -> GMat {
    GMat {
        g00: m.m00 as int,
        g01: m.m01 as int,
        g02: m.m02 as int,
        g03: m.m03 as int,
        g10: m.m10 as int,
        g11: m.m11 as int,
        g12: m.m12 as int,
        g13: m.m13 as int,
        g20: m.m20 as int,
        g21: m.m21 as int,
        g22: m.m22 as int,
        g23: m.m23 as int,
        g30: m.m30 as int,
        g31: m.m31 as int,
        g32: m.m32 as int,
        g33: m.m33 as int,
    }
}

/// Fixed-point matrix product: each entry is the row-column sum of
/// products, rescaled by `SCALE` with truncation.
pub open spec fn gmat_mul(a: GMat, b: GMat) -> GMat {
    GMat {
        g00: tdiv(a.g00 * b.g00 + a.g01 * b.g10 + a.g02 * b.g20 + a.g03 * b.g30, SCALE as int),
        g01: tdiv(a.g00 * b.g01 + a.g01 * b.g11 + a.g02 * b.g21 + a.g03 * b.g31, SCALE as int),
        g02: tdiv(a.g00 * b.g02 + a.g01 * b.g12 + a.g02 * b.g22 + a.g03 * b.g32, SCALE as int),
        g03: tdiv(a.g00 * b.g03 + a.g01 * b.g13 + a.g02 * b.g23 + a.g03 * b.g33, SCALE as int),
        g10: tdiv(a.g10 * b.g00 + a.g11 * b.g10 + a.g12 * b.g20 + a.g13 * b.g30, SCALE as int),
        g11: tdiv(a.g10 * b.g01 + a.g11 * b.g11 + a.g12 * b.g21 + a.g13 * b.g31, SCALE as int),
        g12: tdiv(a.g10 * b.g02 + a.g11 * b.g12 + a.g12 * b.g22 + a.g13 * b.g32, SCALE as int),
        g13: tdiv(a.g10 * b.g03 + a.g11 * b.g13 + a.g12 * b.g23 + a.g13 * b.g33, SCALE as int),
        g20: tdiv(a.g20 * b.g00 + a.g21 * b.g10 + a.g22 * b.g20 + a.g23 * b.g30, SCALE as int),
        g21: tdiv(a.g20 * b.g01 + a.g21 * b.g11 + a.g22 * b.g21 + a.g23 * b.g31, SCALE as int),
        g22: tdiv(a.g20 * b.g02 + a.g21 * b.g12 + a.g22 * b.g22 + a.g23 * b.g32, SCALE as int),
        g23: tdiv(a.g20 * b.g03 + a.g21 * b.g13 + a.g22 * b.g23 + a.g23 * b.g33, SCALE as int),
        g30: tdiv(a.g30 * b.g00 + a.g31 * b.g10 + a.g32 * b.g20 + a.g33 * b.g30, SCALE as int),
        g31: tdiv(a.g30 * b.g01 + a.g31 * b.g11 + a.g32 * b.g21 + a.g33 * b.g31, SCALE as int),
        g32: tdiv(a.g30 * b.g02 + a.g31 * b.g12 + a.g32 * b.g22 + a.g33 * b.g32, SCALE as int),
        g33: tdiv(a.g30 * b.g03 + a.g31 * b.g13 + a.g32 * b.g23 + a.g33 * b.g33, SCALE as int),
    }
}

/// All sixteen entries within `[-bound, bound]`.
pub open spec fn mat_bounded(m: Mat4, bound: int) -> bool {
    &&& -bound <= m.m00 <= bound
    &&& -bound <= m.m01 <= bound
    &&& -bound <= m.m02 <= bound
    &&& -bound <= m.m03 <= bound
    &&& -bound <= m.m10 <= bound
    &&& -bound <= m.m11 <= bound
    &&& -bound <= m.m12 <= bound
    &&& -bound <= m.m13 <= bound
    &&& -bound <= m.m20 <= bound
    &&& -bound <= m.m21 <= bound
    &&& -bound <= m.m22 <= bound
    &&& -bound <= m.m23 <= bound
    &&& -bound <= m.m30 <= bound
    &&& -bound <= m.m31 <= bound
    &&& -bound <= m.m32 <= bound
    &&& -bound <= m.m33 <= bound
}

/// Squared length of a vector given by components.
pub open spec fn norm3_sq(x: int, y: int, z: int) -> int {
    x * x + y * y + z * z
}

/// First component of the normalized vector: scaled by `SCALE` and
/// divided by the integer length; the zero vector normalizes to the
/// third basis vector.
pub open spec fn unit3x(x: int, y: int, z: int) -> int {
    let n = sqrt_spec(norm3_sq(x, y, z));
    if n == 0 {
        0
    } else {
        tdiv(x * SCALE, n)
    }
}

/// Second component of the normalized vector.
pub open spec fn unit3y(x: int, y: int, z: int) -> int {
    let n = sqrt_spec(norm3_sq(x, y, z));
    if n == 0 {
        0
    } else {
        tdiv(y * SCALE, n)
    }
}

/// Third component of the normalized vector.
pub open spec fn unit3z(x: int, y: int, z: int) -> int {
    let n = sqrt_spec(norm3_sq(x, y, z));
    if n == 0 {
        SCALE as int
    } else {
        tdiv(z * SCALE, n)
    }
}

/// A square is never negative.
proof fn lemma_square_nonneg(a: int)
    ensures
        a * a >= 0,
{
    assert(a * a >= 0) by (nonlinear_arith);
}

/// A component is bounded in magnitude by the integer length of the
/// vector.
proof fn lemma_component_le_norm(c: int, s: int, n: int)
    requires
        c * c <= s,
        0 <= n,
        s < (n + 1) * (n + 1),
    ensures
        -n <= c <= n,
{
    assert(-n <= c <= n) by (nonlinear_arith)
        requires
            c * c <= s,
            0 <= n,
            s < (n + 1) * (n + 1),
    ;
}

/// Normalize a vector to length `SCALE`, proved against the `unit3`
/// component specs; components of the result never exceed `SCALE`.
pub fn normalize3(x: i64, y: i64, z: i64) -> (r: V3)
    requires
        -4_000_000_000_000_000 <= x <= 4_000_000_000_000_000,
        -4_000_000_000_000_000 <= y <= 4_000_000_000_000_000,
        -4_000_000_000_000_000 <= z <= 4_000_000_000_000_000,
    ensures
        r.x == unit3x(x as int, y as int, z as int),
        r.y == unit3y(x as int, y as int, z as int),
        r.z == unit3z(x as int, y as int, z as int),
        -SCALE <= r.x <= SCALE,
        -SCALE <= r.y <= SCALE,
        -SCALE <= r.z <= SCALE,
{
    let xi = x as i128;
    let yi = y as i128;
    let zi = z as i128;
    proof {
        lemma_mul_bound(x as int, x as int, 4_000_000_000_000_000, 4_000_000_000_000_000);
        lemma_mul_bound(y as int, y as int, 4_000_000_000_000_000, 4_000_000_000_000_000);
        lemma_mul_bound(z as int, z as int, 4_000_000_000_000_000, 4_000_000_000_000_000);
        lemma_square_nonneg(x as int);
        lemma_square_nonneg(y as int);
        lemma_square_nonneg(z as int);
    }
    let s: i128 = xi * xi + yi * yi + zi * zi;
    let n = isqrt(s as u128);
    if n == 0 {
        V3 { x: 0, y: 0, z: SCALE }
    } else {
        proof {
            lemma_component_le_norm(x as int, s as int, n as int);
            lemma_component_le_norm(y as int, s as int, n as int);
            lemma_component_le_norm(z as int, s as int, n as int);
            lemma_mul_bound(x as int, SCALE as int, 4_000_000_000_000_000, SCALE as int);
            lemma_mul_bound(y as int, SCALE as int, 4_000_000_000_000_000, SCALE as int);
            lemma_mul_bound(z as int, SCALE as int, 4_000_000_000_000_000, SCALE as int);
        }
        let rx = div_trunc(xi * (SCALE as i128), n as i128);
        let ry = div_trunc(yi * (SCALE as i128), n as i128);
        let rz = div_trunc(zi * (SCALE as i128), n as i128);
        proof {
            lemma_tdiv_bound(x as int * SCALE, n as int, n as int * SCALE);
            lemma_tdiv_bound(y as int * SCALE, n as int, n as int * SCALE);
            lemma_tdiv_bound(z as int * SCALE, n as int, n as int * SCALE);
            vstd::arithmetic::div_mod::lemma_div_multiples_vanish(SCALE as int, n as int);
            lemma_mul_bound(x as int, SCALE as int, n as int, SCALE as int);
            lemma_mul_bound(y as int, SCALE as int, n as int, SCALE as int);
            lemma_mul_bound(z as int, SCALE as int, n as int, SCALE as int);
        }
        V3 { x: rx as i64, y: ry as i64, z: rz as i64 }
    }
}

/// First component of the rescaled cross product.
pub open spec fn cross3x(a: V3, b: V3) -> int {
    tdiv(a.y * b.z - a.z * b.y, SCALE as int)
}

/// Second component of the rescaled cross product.
pub open spec fn cross3y(a: V3, b: V3) -> int {
    tdiv(a.z * b.x - a.x * b.z, SCALE as int)
}

/// Third component of the rescaled cross product.
pub open spec fn cross3z(a: V3, b: V3) -> int {
    tdiv(a.x * b.y - a.y * b.x, SCALE as int)
}

/// Cross product of two near-unit vectors, rescaled by `SCALE`.
pub fn cross3(a: V3, b: V3) -> (r: V3)
    requires
        -4_000_000 <= a.x <= 4_000_000,
        -4_000_000 <= a.y <= 4_000_000,
        -4_000_000 <= a.z <= 4_000_000,
        -4_000_000 <= b.x <= 4_000_000,
        -4_000_000 <= b.y <= 4_000_000,
        -4_000_000 <= b.z <= 4_000_000,
    ensures
        r.x == cross3x(a, b),
        r.y == cross3y(a, b),
        r.z == cross3z(a, b),
        -32_000_000 <= r.x <= 32_000_000,
        -32_000_000 <= r.y <= 32_000_000,
        -32_000_000 <= r.z <= 32_000_000,
{
    proof {
        lemma_mul_bound(a.y as int, b.z as int, 4_000_000, 4_000_000);
        lemma_mul_bound(a.z as int, b.y as int, 4_000_000, 4_000_000);
        lemma_mul_bound(a.z as int, b.x as int, 4_000_000, 4_000_000);
        lemma_mul_bound(a.x as int, b.z as int, 4_000_000, 4_000_000);
        lemma_mul_bound(a.x as int, b.y as int, 4_000_000, 4_000_000);
        lemma_mul_bound(a.y as int, b.x as int, 4_000_000, 4_000_000);
    }
    let nx: i128 = (a.y as i128) * (b.z as i128) - (a.z as i128) * (b.y as i128);
    let ny: i128 = (a.z as i128) * (b.x as i128) - (a.x as i128) * (b.z as i128);
    let nz: i128 = (a.x as i128) * (b.y as i128) - (a.y as i128) * (b.x as i128);
    let rx = div_trunc(nx, SCALE as i128);
    let ry = div_trunc(ny, SCALE as i128);
    let rz = div_trunc(nz, SCALE as i128);
    proof {
        lemma_tdiv_bound(nx as int, SCALE as int, 32_000_000_000_000);
        lemma_tdiv_bound(ny as int, SCALE as int, 32_000_000_000_000);
        lemma_tdiv_bound(nz as int, SCALE as int, 32_000_000_000_000);
    }
    V3 { x: rx as i64, y: ry as i64, z: rz as i64 }
}

/// Dot product of a near-unit vector with a point, rescaled by `SCALE`:
/// the projection of the point onto the axis, in micro-units.
pub open spec fn dot3_spec(a: V3, x: int, y: int, z: int) -> int {
    tdiv(a.x * x + a.y * y + a.z * z, SCALE as int)
}

/// Dot product of a near-unit axis with a point.
pub fn dot3(a: V3, x: i64, y: i64, z: i64) -> (r: i64)
    requires
        -4_000_000 <= a.x <= 4_000_000,
        -4_000_000 <= a.y <= 4_000_000,
        -4_000_000 <= a.z <= 4_000_000,
        -4_000_000_000_000 <= x <= 4_000_000_000_000,
        -4_000_000_000_000 <= y <= 4_000_000_000_000,
        -4_000_000_000_000 <= z <= 4_000_000_000_000,
    ensures
        r == dot3_spec(a, x as int, y as int, z as int),
        -48_000_000_000_000 <= r <= 48_000_000_000_000,
{
    proof {
        lemma_mul_bound(a.x as int, x as int, 4_000_000, 4_000_000_000_000);
        lemma_mul_bound(a.y as int, y as int, 4_000_000, 4_000_000_000_000);
        lemma_mul_bound(a.z as int, z as int, 4_000_000, 4_000_000_000_000);
    }
    let s: i128 = (a.x as i128) * (x as i128) + (a.y as i128) * (y as i128)
        + (a.z as i128) * (z as i128);
    let r = div_trunc(s, SCALE as i128);
    proof {
        lemma_tdiv_bound(s as int, SCALE as int, 48_000_000_000_000_000_000);
    }
    r as i64
}

/// One row-column entry of a fixed-point matrix product.
fn dot4(
    a0: i128, a1: i128, a2: i128, a3: i128,
    b0: i128, b1: i128, b2: i128, b3: i128,
    Ghost(am): Ghost<int>, Ghost(bm): Ghost<int>,
) -> (r: i128)
    requires
        0 <= am,
        0 <= bm,
        am * bm <= 0x1_0000_0000_0000_0000_0000_0000_0000,
        -am <= a0 <= am, -am <= a1 <= am, -am <= a2 <= am, -am <= a3 <= am,
        -bm <= b0 <= bm, -bm <= b1 <= bm, -bm <= b2 <= bm, -bm <= b3 <= bm,
    ensures
        r == tdiv(a0 * b0 + a1 * b1 + a2 * b2 + a3 * b3, SCALE as int),
        -((4 * am * bm) / (SCALE as int)) <= r <= (4 * am * bm) / (SCALE as int),
{
    proof {
        lemma_mul_bound(a0 as int, b0 as int, am, bm);
        lemma_mul_bound(a1 as int, b1 as int, am, bm);
        lemma_mul_bound(a2 as int, b2 as int, am, bm);
        lemma_mul_bound(a3 as int, b3 as int, am, bm);
    }
    let s: i128 = a0 * b0 + a1 * b1 + a2 * b2 + a3 * b3;
    let r = div_trunc(s, SCALE as i128);
    proof {
        assert(4 * am * bm == 4 * (am * bm)) by (nonlinear_arith);
        lemma_tdiv_bound(s as int, SCALE as int, 4 * am * bm);
    }
    r
}

/// Fixed-point matrix product, proved entrywise against `gmat_mul`.
/// `am` and `bm` bound the entries of the factors; the product's entries
/// are bounded by `4 * am * bm / SCALE`.
pub fn mat_mul(a: &Mat4, b: &Mat4, Ghost(am): Ghost<int>, Ghost(bm): Ghost<int>) -> (r: Mat4)
    requires
        0 <= am,
        0 <= bm,
        am * bm <= 0x1_0000_0000_0000_0000_0000_0000_0000,
        mat_bounded(*a, am),
        mat_bounded(*b, bm),
    ensures
        mat_to_g(r) == gmat_mul(mat_to_g(*a), mat_to_g(*b)),
        mat_bounded(r, (4 * am * bm) / (SCALE as int)),
{
    let r00 = dot4(a.m00, a.m01, a.m02, a.m03, b.m00, b.m10, b.m20, b.m30, Ghost(am), Ghost(bm));
    let r01 = dot4(a.m00, a.m01, a.m02, a.m03, b.m01, b.m11, b.m21, b.m31, Ghost(am), Ghost(bm));
    let r02 = dot4(a.m00, a.m01, a.m02, a.m03, b.m02, b.m12, b.m22, b.m32, Ghost(am), Ghost(bm));
    let r03 = dot4(a.m00, a.m01, a.m02, a.m03, b.m03, b.m13, b.m23, b.m33, Ghost(am), Ghost(bm));
    let r10 = dot4(a.m10, a.m11, a.m12, a.m13, b.m00, b.m10, b.m20, b.m30, Ghost(am), Ghost(bm));
    let r11 = dot4(a.m10, a.m11, a.m12, a.m13, b.m01, b.m11, b.m21, b.m31, Ghost(am), Ghost(bm));
    let r12 = dot4(a.m10, a.m11, a.m12, a.m13, b.m02, b.m12, b.m22, b.m32, Ghost(am), Ghost(bm));
    let r13 = dot4(a.m10, a.m11, a.m12, a.m13, b.m03, b.m13, b.m23, b.m33, Ghost(am), Ghost(bm));
    let r20 = dot4(a.m20, a.m21, a.m22, a.m23, b.m00, b.m10, b.m20, b.m30, Ghost(am), Ghost(bm));
    let r21 = dot4(a.m20, a.m21, a.m22, a.m23, b.m01, b.m11, b.m21, b.m31, Ghost(am), Ghost(bm));
    let r22 = dot4(a.m20, a.m21, a.m22, a.m23, b.m02, b.m12, b.m22, b.m32, Ghost(am), Ghost(bm));
    let r23 = dot4(a.m20, a.m21, a.m22, a.m23, b.m03, b.m13, b.m23, b.m33, Ghost(am), Ghost(bm));
    let r30 = dot4(a.m30, a.m31, a.m32, a.m33, b.m00, b.m10, b.m20, b.m30, Ghost(am), Ghost(bm));
    let r31 = dot4(a.m30, a.m31, a.m32, a.m33, b.m01, b.m11, b.m21, b.m31, Ghost(am), Ghost(bm));
    let r32 = dot4(a.m30, a.m31, a.m32, a.m33, b.m02, b.m12, b.m22, b.m32, Ghost(am), Ghost(bm));
    let r33 = dot4(a.m30, a.m31, a.m32, a.m33, b.m03, b.m13, b.m23, b.m33, Ghost(am), Ghost(bm));
    Mat4 {
        m00: r00,
        m01: r01,
        m02: r02,
        m03: r03,
        m10: r10,
        m11: r11,
        m12: r12,
        m13: r13,
        m20: r20,
        m21: r21,
        m22: r22,
        m23: r23,
        m30: r30,
        m31: r31,
        m32: r32,
        m33: r33,
    }
}

} // verus!
