//! The orbital camera: a look-at target plus a spherical offset (range,
//! azimuth, elevation), kept in fixed-point micro-units and micro-degrees.
//!
//! Invariants: the azimuth is always wrapped into `[0, 360)` degrees, the
//! elevation is clamped (saturating, not wrapping) into `[-270, 90]`
//! degrees, and the effective range is always strictly positive. Zoom is
//! held in log space - a count of discrete steps, each scaling the range
//! by 3/4 - so zooming in and back out by the same amount restores the
//! range exactly.

use vstd::prelude::*;
use crate::fixed::{SCALE, tdiv, clamp_spec, clamp_i64, div_trunc, lemma_tdiv_bound};
use crate::trig::{DEG360, sin_spec, cos_spec, sin_fp, cos_fp, wrap_deg};

verus! {

/// Smallest representable aspect ratio, in millionths (0.001).
pub const ASPECT_MIN: i64 = 1_000;

/// Largest representable aspect ratio, in millionths (20000).
pub const ASPECT_MAX: i64 = 20_000_000_000;

/// Largest magnitude of a target coordinate, in micro-units.
pub const TARGET_MAX: i64 = 1_000_000_000_000;

/// Largest representable range (and far plane), in micro-units.
pub const RANGE_MAX: i64 = 1_000_000_000_000;

/// Largest magnitude of the zoom step counter.
pub const ZOOM_MAX: i64 = 10_000;

/// Lower elevation bound: -270 degrees, in micro-degrees.
pub const ELEV_MIN: i64 = -270_000_000;

/// Upper elevation bound: 90 degrees, in micro-degrees.
pub const ELEV_MAX: i64 = 90_000_000;

/// Orbit sensitivity: micro-degrees of rotation per pixel of drag,
/// about 0.01 radians per pixel.
pub const ORBIT_RATE: i64 = 572_958;

/// Pan scaling divisor: a drag delta in micro-pixels times a rotation
/// entry in `SCALE` steps, divided by this, gives a world translation in
/// micro-units scaled by 1/10.
pub const PAN_DIV: i128 = 10_000_000;

/// Narrowest field of view: 1 degree, in micro-degrees.
pub const FOVY_MIN: i64 = 1_000_000;

/// Widest field of view: 179 degrees, in micro-degrees.
pub const FOVY_MAX: i64 = 179_000_000;

/// Spherical camera state. All lengths are micro-units, all angles
/// micro-degrees; `zoom` counts discrete longitudinal steps.
#[derive(Clone, Copy, PartialEq, Eq, Structural, Debug)]
pub struct OrbitCamera {
    pub aspect: i64,
    pub fovy: i64,
    pub znear: i64,
    pub zfar: i64,
    pub target_x: i64,
    pub target_y: i64,
    pub target_z: i64,
    pub range_base: i64,
    pub zoom: i64,
    pub azimuth: i64,
    pub elevation: i64,
}

/// Validation failures of externally driven camera edits.
#[derive(Clone, Copy, PartialEq, Eq, Structural, Debug)]
pub enum CameraError {
    /// A range at or below zero was rejected; the prior state is kept.
    NonPositiveRange,
    /// A range beyond `RANGE_MAX` was rejected; the prior state is kept.
    RangeTooLarge,
}

/// Azimuth after an orbit drag of `dx` pixels: rotate and wrap into a
/// full turn.
pub open spec fn azimuth_after(az: int, dx: int) -> int {
    (az - dx * ORBIT_RATE) % (DEG360 as int)
}

/// Elevation after an orbit drag of `dy` pixels: rotate and saturate at
/// the bounds.
pub open spec fn elevation_after(el: int, dy: int) -> int {
    clamp_spec(el + dy * ORBIT_RATE, ELEV_MIN as int, ELEV_MAX as int)
}

/// Zoom counter after a longitudinal move, saturating at the model bounds.
pub open spec fn zoom_after(z: int, d: int) -> int {
    clamp_spec(z + d, -ZOOM_MAX as int, ZOOM_MAX as int)
}

/// Effective range: the base range scaled by 3/4 once per zoom step,
/// quantized to micro-units and kept within `[1, RANGE_MAX]`.
pub open spec fn range_eff(base: int, z: int) -> int
    decreases vstd::math::abs(z),
{
    if z == 0 {
        base
    } else if z > 0 {
        let p = range_eff(base, z - 1);
        let q = p * 3 / 4;
        if q < 1 {
            1
        } else {
            q
        }
    } else {
        let p = range_eff(base, z + 1);
        let q = p * 4 / 3;
        if q > RANGE_MAX {
            RANGE_MAX as int
        } else {
            q
        }
    }
}

/// The effective range never leaves `[1, RANGE_MAX]`: zooming keeps the
/// range strictly positive for every number of steps.
pub proof fn lemma_range_eff_bounds(base: int, z: int)
    requires
        1 <= base <= RANGE_MAX,
    ensures
        1 <= range_eff(base, z) <= RANGE_MAX,
    decreases vstd::math::abs(z),
{
    if z == 0 {
    } else if z > 0 {
        lemma_range_eff_bounds(base, z - 1);
        let p = range_eff(base, z - 1);
        vstd::arithmetic::div_mod::lemma_div_pos_is_pos(p * 3, 4);
        vstd::arithmetic::div_mod::lemma_div_is_ordered(p * 3, 3 * RANGE_MAX, 4);
    } else {
        lemma_range_eff_bounds(base, z + 1);
        let p = range_eff(base, z + 1);
        vstd::arithmetic::div_mod::lemma_div_is_ordered(3, p * 4, 3);
        vstd::arithmetic::div_mod::lemma_div_multiples_vanish(1, 3);
    }
}

/// Pan translation along the first world axis for a drag `(dx, dy)` at
/// azimuth `az`, in micro-units.
pub open spec fn focus_dx(az: int, dx: int, dy: int) -> int {
    tdiv(-sin_spec(az) * dx + cos_spec(az) * dy, PAN_DIV as int)
}

/// Pan translation along the second world axis for a drag `(dx, dy)` at
/// azimuth `az`, in micro-units.
pub open spec fn focus_dy(az: int, dx: int, dy: int) -> int {
    tdiv(cos_spec(az) * dx + sin_spec(az) * dy, PAN_DIV as int)
}

impl OrbitCamera {
    /// Internal consistency of a camera state.
    pub open spec fn wf(self) -> bool {
        &&& ASPECT_MIN <= self.aspect <= ASPECT_MAX
        &&& FOVY_MIN <= self.fovy <= FOVY_MAX
        &&& 1_000 <= self.znear
        &&& 2 * self.znear <= self.zfar <= RANGE_MAX
        &&& -TARGET_MAX <= self.target_x <= TARGET_MAX
        &&& -TARGET_MAX <= self.target_y <= TARGET_MAX
        &&& -TARGET_MAX <= self.target_z <= TARGET_MAX
        &&& 1 <= self.range_base <= RANGE_MAX
        &&& -ZOOM_MAX <= self.zoom <= ZOOM_MAX
        &&& 0 <= self.azimuth < DEG360
        &&& ELEV_MIN <= self.elevation <= ELEV_MAX
    }

    /// The camera created at startup: looking at the origin from 10 units
    /// away, at a 45/45 degree perspective, with a 45 degree field of
    /// view and near/far planes at 0.1 and 100 units.
    pub fn default(aspect: i64) -> (c: OrbitCamera)
        requires
            ASPECT_MIN <= aspect <= ASPECT_MAX,
        ensures
            c == (OrbitCamera {
                aspect,
                fovy: 45_000_000i64,
                znear: 100_000i64,
                zfar: 100_000_000i64,
                target_x: 0i64,
                target_y: 0i64,
                target_z: 0i64,
                range_base: 10_000_000i64,
                zoom: 0i64,
                azimuth: 45_000_000i64,
                elevation: 45_000_000i64,
            }),
            c.wf(),
    {
        OrbitCamera {
            aspect,
            fovy: 45_000_000,
            znear: 100_000,
            zfar: 100_000_000,
            target_x: 0,
            target_y: 0,
            target_z: 0,
            range_base: 10_000_000,
            zoom: 0,
            azimuth: 45_000_000,
            elevation: 45_000_000,
        }
    }

    /// Replace the aspect ratio (window resize); every other field is kept.
    pub fn set_aspect(&mut self, aspect: i64)
        requires
            old(self).wf(),
            ASPECT_MIN <= aspect <= ASPECT_MAX,
        ensures
            *final(self) == (OrbitCamera { aspect, ..*old(self) }),
            final(self).wf(),
    {
        self.aspect = aspect;
    }

    /// Exponential zoom by `delta` steps: each positive step scales the
    /// range by 3/4, each negative step by 4/3, saturating at the zoom
    /// bounds. The range stays strictly positive for every `delta`.
    pub fn move_longitudinally(&mut self, delta: i64)
        requires
            old(self).wf(),
        ensures
            *final(self) == (OrbitCamera { zoom: final(self).zoom, ..*old(self) }),
            final(self).zoom == zoom_after(old(self).zoom as int, delta as int),
            final(self).wf(),
    {
        let z = self.zoom;
        let nz: i64 = if delta >= 0 {
            if delta > ZOOM_MAX - z {
                ZOOM_MAX
            } else {
                z + delta
            }
        } else {
            if delta < -ZOOM_MAX - z {
                -ZOOM_MAX
            } else {
                z + delta
            }
        };
        self.zoom = nz;
    }

    /// Orbit drag: `azimuth -= dx * rate`, wrapped into a full turn;
    /// `elevation += dy * rate`, saturating at its bounds. `dx` and `dy`
    /// are pixels.
    pub fn move_on_orbit(&mut self, dx: i64, dy: i64)
        requires
            old(self).wf(),
            -1_000_000_000 <= dx <= 1_000_000_000,
            -1_000_000_000 <= dy <= 1_000_000_000,
        ensures
            *final(self) == (OrbitCamera {
                azimuth: final(self).azimuth,
                elevation: final(self).elevation,
                ..*old(self)
            }),
            final(self).azimuth == azimuth_after(old(self).azimuth as int, dx as int),
            final(self).elevation == elevation_after(old(self).elevation as int, dy as int),
            final(self).wf(),
    {
        let az = wrap_deg(self.azimuth - dx * ORBIT_RATE);
        let el = clamp_i64(self.elevation + dy * ORBIT_RATE, ELEV_MIN, ELEV_MAX);
        self.azimuth = az;
        self.elevation = el;
    }

    /// Pan drag: the 2-D delta, rotated into the camera's horizontal
    /// plane by the current azimuth and scaled by 1/10, is subtracted
    /// from the target. `dx` and `dy` are micro-pixels. The target
    /// saturates at the representable bounds.
    pub fn move_focus(&mut self, dx: i64, dy: i64)
        requires
            old(self).wf(),
            -1_000_000_000 <= dx <= 1_000_000_000,
            -1_000_000_000 <= dy <= 1_000_000_000,
        ensures
            *final(self) == (OrbitCamera {
                target_x: final(self).target_x,
                target_y: final(self).target_y,
                ..*old(self)
            }),
            final(self).target_x == clamp_spec(
                old(self).target_x - focus_dx(old(self).azimuth as int, dx as int, dy as int),
                -TARGET_MAX as int,
                TARGET_MAX as int,
            ),
            final(self).target_y == clamp_spec(
                old(self).target_y - focus_dy(old(self).azimuth as int, dx as int, dy as int),
                -TARGET_MAX as int,
                TARGET_MAX as int,
            ),
            final(self).wf(),
    {
        let s = sin_fp(self.azimuth);
        let c = cos_fp(self.azimuth);
        proof {
            crate::fixed::lemma_mul_bound(c as int, dy as int, SCALE as int, 1_000_000_000);
            crate::fixed::lemma_mul_bound(s as int, dx as int, SCALE as int, 1_000_000_000);
            crate::fixed::lemma_mul_bound(c as int, dx as int, SCALE as int, 1_000_000_000);
            crate::fixed::lemma_mul_bound(s as int, dy as int, SCALE as int, 1_000_000_000);
        }
        let nx: i128 = (c as i128) * (dy as i128) - (s as i128) * (dx as i128);
        let ny: i128 = (c as i128) * (dx as i128) + (s as i128) * (dy as i128);
        proof {
            assert((-(s as int)) * (dx as int) == -((s as int) * (dx as int)))
                by (nonlinear_arith);
            assert(nx as int == -(s as int) * (dx as int) + (c as int) * (dy as int));
        }
        let wx = div_trunc(nx, PAN_DIV);
        let wy = div_trunc(ny, PAN_DIV);
        proof {
            lemma_tdiv_bound(nx as int, PAN_DIV as int, 2_000_000_000_000_000);
            lemma_tdiv_bound(ny as int, PAN_DIV as int, 2_000_000_000_000_000);
        }
        let tx = clamp_i64(self.target_x - (wx as i64), -TARGET_MAX, TARGET_MAX);
        let ty = clamp_i64(self.target_y - (wy as i64), -TARGET_MAX, TARGET_MAX);
        self.target_x = tx;
        self.target_y = ty;
    }

    /// Move the look-at target directly (externally driven edit).
    pub fn set_target(&mut self, x: i64, y: i64, z: i64)
        requires
            old(self).wf(),
            -TARGET_MAX <= x <= TARGET_MAX,
            -TARGET_MAX <= y <= TARGET_MAX,
            -TARGET_MAX <= z <= TARGET_MAX,
        ensures
            *final(self) == (OrbitCamera { target_x: x, target_y: y, target_z: z, ..*old(self) }),
            final(self).wf(),
    {
        self.target_x = x;
        self.target_y = y;
        self.target_z = z;
    }

    /// Set the range directly. A non-positive range is rejected and a
    /// range beyond the representable bound is rejected; on rejection the
    /// prior state is left unchanged. Accepting resets the zoom counter,
    /// so the effective range equals the requested one.
    pub fn set_range(&mut self, range: i64) -> (r: Result<(), CameraError>)
        requires
            old(self).wf(),
        ensures
            1 <= range <= RANGE_MAX <==> r == Ok::<(), CameraError>(()),
            range < 1 ==> r == Err::<(), CameraError>(CameraError::NonPositiveRange),
            range > RANGE_MAX ==> r == Err::<(), CameraError>(CameraError::RangeTooLarge),
            r is Ok ==> *final(self) == (OrbitCamera {
                range_base: range,
                zoom: 0i64,
                ..*old(self)
            }),
            r is Err ==> *final(self) == *old(self),
            final(self).wf(),
    {
        if range < 1 {
            Err(CameraError::NonPositiveRange)
        } else if range > RANGE_MAX {
            Err(CameraError::RangeTooLarge)
        } else {
            self.range_base = range;
            self.zoom = 0;
            Ok(())
        }
    }

    /// Set the azimuth directly, wrapped into a full turn.
    pub fn set_azimuth(&mut self, az: i64)
        requires
            old(self).wf(),
        ensures
            *final(self) == (OrbitCamera { azimuth: final(self).azimuth, ..*old(self) }),
            final(self).azimuth == (az as int) % (DEG360 as int),
            final(self).wf(),
    {
        let w = wrap_deg(az);
        self.azimuth = w;
    }

    /// Set the elevation directly, saturating at the bounds.
    pub fn set_elevation(&mut self, el: i64)
        requires
            old(self).wf(),
        ensures
            *final(self) == (OrbitCamera { elevation: final(self).elevation, ..*old(self) }),
            final(self).elevation == clamp_spec(el as int, ELEV_MIN as int, ELEV_MAX as int),
            final(self).wf(),
    {
        let w = clamp_i64(el, ELEV_MIN, ELEV_MAX);
        self.elevation = w;
    }

    /// The effective range in micro-units: the base range with the zoom
    /// steps applied. Always strictly positive.
    pub fn range_micro(&self) -> (r: i64)
        requires
            self.wf(),
        ensures
            r == range_eff(self.range_base as int, self.zoom as int),
            1 <= r <= RANGE_MAX,
    {
        let base = self.range_base;
        let mut r: i64 = base;
        if self.zoom >= 0 {
            let n = self.zoom;
            let mut i: i64 = 0;
            while i < n
                invariant
                    0 <= i <= n,
                    n == self.zoom,
                    1 <= base <= RANGE_MAX,
                    r == range_eff(base as int, i as int),
                    1 <= r <= RANGE_MAX,
                decreases n - i,
            {
                let q = (((r as u64) * 3) / 4) as i64;
                r = if q < 1 {
                    1
                } else {
                    q
                };
                i = i + 1;
            }
            r
        } else {
            let n = -self.zoom;
            let mut i: i64 = 0;
            while i < n
                invariant
                    0 <= i <= n,
                    n == -self.zoom,
                    1 <= base <= RANGE_MAX,
                    r == range_eff(base as int, -i as int),
                    1 <= r <= RANGE_MAX,
                decreases n - i,
            {
                let q = (((r as u64) * 4) / 3) as i64;
                r = if q > RANGE_MAX {
                    RANGE_MAX
                } else {
                    q
                };
                i = i + 1;
            }
            r
        }
    }

    /// Read-only snapshot of the target, in micro-units.
    pub fn target_micro(&self) -> (t: (i64, i64, i64))
        ensures
            t.0 == self.target_x,
            t.1 == self.target_y,
            t.2 == self.target_z,
    {
        (self.target_x, self.target_y, self.target_z)
    }

    /// Read-only snapshot of the azimuth, in micro-degrees.
    pub fn azimuth_micro(&self) -> (a: i64)
        ensures
            a == self.azimuth,
    {
        self.azimuth
    }

    /// Read-only snapshot of the elevation, in micro-degrees.
    pub fn elevation_micro(&self) -> (e: i64)
        ensures
            e == self.elevation,
    {
        self.elevation
    }

    /// Read-only snapshot of the aspect ratio, in millionths.
    pub fn aspect_micro(&self) -> (a: i64)
        ensures
            a == self.aspect,
    {
        self.aspect
    }
}

/// Orbiting keeps the azimuth inside `[0, 360)` degrees and the elevation
/// inside `[-270, 90]` degrees for every drag; at the elevation bounds the
/// motion saturates instead of wrapping.
pub proof fn lemma_orbit_bounds(az: int, el: int, dx: int, dy: int)
    ensures
        0 <= azimuth_after(az, dx) < DEG360,
        ELEV_MIN <= elevation_after(el, dy) <= ELEV_MAX,
        el + dy * ORBIT_RATE > ELEV_MAX ==> elevation_after(el, dy) == ELEV_MAX,
        el + dy * ORBIT_RATE < ELEV_MIN ==> elevation_after(el, dy) == ELEV_MIN,
{
    vstd::arithmetic::div_mod::lemma_mod_bound(az - dx * ORBIT_RATE, DEG360 as int);
}

/// Longitudinal moves keep the range strictly positive, and a move by `d`
/// followed by a move by `-d` (in either order) restores the zoom counter,
/// and with it the effective range, exactly - provided the intermediate
/// counter stays inside the saturation window.
pub proof fn lemma_longitudinal_roundtrip(base: int, z: int, d: int)
    requires
        1 <= base <= RANGE_MAX,
        -ZOOM_MAX <= z <= ZOOM_MAX,
        -ZOOM_MAX <= z + d <= ZOOM_MAX,
        -ZOOM_MAX <= z - d <= ZOOM_MAX,
    ensures
        zoom_after(zoom_after(z, d), -d) == z,
        zoom_after(zoom_after(z, -d), d) == z,
        range_eff(base, zoom_after(zoom_after(z, d), -d)) == range_eff(base, z),
        range_eff(base, zoom_after(z, d)) >= 1,
{
    lemma_range_eff_bounds(base, zoom_after(z, d));
}

} // verus!

use crate::geometry::Vec4i;
use crate::vecmat::{
    V3, Mat4, GMat, mat_to_g, gmat_mul, mat_bounded, mat_mul, normalize3, cross3, dot3,
    unit3x, unit3y, unit3z,
};
use crate::trig::lemma_bhask_pos;

verus! {

/// Elevation offset of the finite-difference up probe: 0.01 radians in
/// micro-degrees.
pub const UP_EPS: i64 = 572_958;

/// The camera-to-clip uniform block handed to the vertex stage: the eye
/// position (homogeneous, w = SCALE) and the combined view-projection
/// matrix.
#[derive(Clone, Copy, PartialEq, Eq, Structural, Debug)]
pub struct CameraUniform {
    pub camera_pos: Vec4i,
    pub view_proj: Mat4,
}

/// First component of the spherical offset `(range, azimuth, elevation)`
/// in Cartesian micro-units.
pub open spec fn cart_x(r: int, az: int, el: int) -> int {
    let rce = tdiv(r * cos_spec(el), SCALE as int);
    tdiv(rce * cos_spec(az), SCALE as int)
}

/// Second component of the spherical offset.
pub open spec fn cart_y(r: int, az: int, el: int) -> int {
    let rce = tdiv(r * cos_spec(el), SCALE as int);
    tdiv(rce * sin_spec(az), SCALE as int)
}

/// Third component of the spherical offset.
pub open spec fn cart_z(r: int, az: int, el: int) -> int {
    tdiv(r * sin_spec(el), SCALE as int)
}

/// Spherical-to-Cartesian conversion, proved against the `cart_*`
/// component specs; each component is bounded by the range.
pub fn cartesian_from_polar(range: i64, azimuth: i64, elevation: i64) -> (r: V3)
    requires
        0 <= range <= RANGE_MAX,
        -1_000_000_000_000 <= azimuth <= 1_000_000_000_000,
        -1_000_000_000_000 <= elevation <= 1_000_000_000_000,
    ensures
        r.x == cart_x(range as int, azimuth as int, elevation as int),
        r.y == cart_y(range as int, azimuth as int, elevation as int),
        r.z == cart_z(range as int, azimuth as int, elevation as int),
        -range <= r.x <= range,
        -range <= r.y <= range,
        -range <= r.z <= range,
{
    let ce = cos_fp(elevation);
    let se = sin_fp(elevation);
    let ca = cos_fp(azimuth);
    let sa = sin_fp(azimuth);
    proof {
        crate::fixed::lemma_mul_bound(range as int, ce as int, range as int, SCALE as int);
        crate::fixed::lemma_mul_bound(range as int, se as int, range as int, SCALE as int);
        vstd::arithmetic::div_mod::lemma_div_multiples_vanish(range as int, SCALE as int);
    }
    let rce = div_trunc((range as i128) * (ce as i128), SCALE as i128);
    let z = div_trunc((range as i128) * (se as i128), SCALE as i128);
    proof {
        lemma_tdiv_bound(range as int * (ce as int), SCALE as int, range as int * SCALE);
        lemma_tdiv_bound(range as int * (se as int), SCALE as int, range as int * SCALE);
        crate::fixed::lemma_mul_bound(rce as int, ca as int, range as int, SCALE as int);
        crate::fixed::lemma_mul_bound(rce as int, sa as int, range as int, SCALE as int);
    }
    let x = div_trunc(rce * (ca as i128), SCALE as i128);
    let y = div_trunc(rce * (sa as i128), SCALE as i128);
    proof {
        lemma_tdiv_bound(rce as int * (ca as int), SCALE as int, range as int * SCALE);
        lemma_tdiv_bound(rce as int * (sa as int), SCALE as int, range as int * SCALE);
    }
    V3 { x: x as i64, y: y as i64, z: z as i64 }
}

/// First component of the eye position: the target plus the spherical
/// offset.
pub open spec fn eye_x(c: OrbitCamera) -> int {
    c.target_x + cart_x(range_eff(c.range_base as int, c.zoom as int), c.azimuth as int, c.elevation as int)
}

/// Second component of the eye position.
pub open spec fn eye_y(c: OrbitCamera) -> int {
    c.target_y + cart_y(range_eff(c.range_base as int, c.zoom as int), c.azimuth as int, c.elevation as int)
}

/// Third component of the eye position.
pub open spec fn eye_z(c: OrbitCamera) -> int {
    c.target_z + cart_z(range_eff(c.range_base as int, c.zoom as int), c.azimuth as int, c.elevation as int)
}

/// The right-handed look-at view matrix of the camera, over ghost
/// integers: rows are the side axis, the up axis and the negated forward
/// axis (each quantized to length `SCALE`), with the translation column
/// holding the negated projections of the eye; the up direction comes
/// from a finite-difference probe at `elevation + UP_EPS`, normalized
/// before the cross products. A degenerate (all-zero) axis normalizes to
/// the third basis vector.
pub open spec fn view_g(c: OrbitCamera) -> GMat {
    let range = range_eff(c.range_base as int, c.zoom as int);
    let ox = cart_x(range, c.azimuth as int, c.elevation as int);
    let oy = cart_y(range, c.azimuth as int, c.elevation as int);
    let oz = cart_z(range, c.azimuth as int, c.elevation as int);
    let ex = c.target_x + ox;
    let ey = c.target_y + oy;
    let ez = c.target_z + oz;
    let px = cart_x(range, c.azimuth as int, c.elevation + UP_EPS);
    let py = cart_y(range, c.azimuth as int, c.elevation + UP_EPS);
    let pz = cart_z(range, c.azimuth as int, c.elevation + UP_EPS);
    let fx = unit3x(-ox, -oy, -oz);
    let fy = unit3y(-ox, -oy, -oz);
    let fz = unit3z(-ox, -oy, -oz);
    let ux = unit3x(px - ox, py - oy, pz - oz);
    let uy = unit3y(px - ox, py - oy, pz - oz);
    let uz = unit3z(px - ox, py - oy, pz - oz);
    let cx = tdiv(fy * uz - fz * uy, SCALE as int);
    let cy = tdiv(fz * ux - fx * uz, SCALE as int);
    let cz = tdiv(fx * uy - fy * ux, SCALE as int);
    let sx = unit3x(cx, cy, cz);
    let sy = unit3y(cx, cy, cz);
    let sz = unit3z(cx, cy, cz);
    let wx = tdiv(sy * fz - sz * fy, SCALE as int);
    let wy = tdiv(sz * fx - sx * fz, SCALE as int);
    let wz = tdiv(sx * fy - sy * fx, SCALE as int);
    GMat {
        g00: sx,
        g01: sy,
        g02: sz,
        g03: -tdiv(sx * ex + sy * ey + sz * ez, SCALE as int),
        g10: wx,
        g11: wy,
        g12: wz,
        g13: -tdiv(wx * ex + wy * ey + wz * ez, SCALE as int),
        g20: -fx,
        g21: -fy,
        g22: -fz,
        g23: tdiv(fx * ex + fy * ey + fz * ez, SCALE as int),
        g30: 0,
        g31: 0,
        g32: 0,
        g33: SCALE as int,
    }
}

/// The perspective projection of the camera, over ghost integers:
/// `fcot` is the quantized cotangent of half the field of view; depth is
/// mapped by the usual right-handed clip with `w = -z`.
pub open spec fn proj_g(c: OrbitCamera) -> GMat {
    let half = (c.fovy as int) / 2;
    let fcot = tdiv(cos_spec(half) * SCALE, sin_spec(half));
    GMat {
        g00: tdiv(fcot * SCALE, c.aspect as int),
        g01: 0,
        g02: 0,
        g03: 0,
        g10: 0,
        g11: fcot,
        g12: 0,
        g13: 0,
        g20: 0,
        g21: 0,
        g22: -tdiv((c.zfar + c.znear) * SCALE, c.zfar - c.znear),
        g23: -tdiv(2 * (c.zfar as int) * (c.znear as int), c.zfar - c.znear),
        g30: 0,
        g31: 0,
        g32: -SCALE as int,
        g33: 0,
    }
}

/// The fixed basis-correction matrix mapping the right-handed Y-up
/// convention into the target clip space: X and Y are flipped and Z is
/// remapped from `[-1, 1]` to `[0, 1]` (scale 1/2, offset 1/2 on the
/// projected Z/W row).
pub open spec fn corr_g() -> GMat {
    GMat {
        g00: -SCALE as int,
        g01: 0,
        g02: 0,
        g03: 0,
        g10: 0,
        g11: -SCALE as int,
        g12: 0,
        g13: 0,
        g20: 0,
        g21: 0,
        g22: 500_000,
        g23: 0,
        g30: 0,
        g31: 0,
        g32: 500_000,
        g33: SCALE as int,
    }
}

/// The full view-projection transform: correction times projection times
/// view.
pub open spec fn view_proj_g(c: OrbitCamera) -> GMat {
    gmat_mul(corr_g(), gmat_mul(proj_g(c), view_g(c)))
}

/// A source of per-draw camera transforms.
pub trait Camera {
    /// The states on which a transform may be derived.
    spec fn valid(&self) -> bool;

    /// Derive the uniform block for the current state; recomputed on
    /// every draw call, never cached.
    fn generate_uniform(&self) -> CameraUniform
        requires
            self.valid(),
    ;
}

impl Camera for OrbitCamera {
    open spec fn valid(&self) -> bool {
        self.wf()
    }

    /// The uniform block is a pure function of the camera state: the eye
    /// is the target plus the spherical offset, and the matrix is
    /// exactly `view_proj_g` of the state.
    fn generate_uniform(&self) -> (u: CameraUniform)
        ensures
            u.camera_pos.x == eye_x(*self),
            u.camera_pos.y == eye_y(*self),
            u.camera_pos.z == eye_z(*self),
            u.camera_pos.w == SCALE,
            mat_to_g(u.view_proj) == view_proj_g(*self),
    {
        let range = self.range_micro();
        let off = cartesian_from_polar(range, self.azimuth, self.elevation);
        let probe = cartesian_from_polar(range, self.azimuth, self.elevation + UP_EPS);
        let ex = self.target_x + off.x;
        let ey = self.target_y + off.y;
        let ez = self.target_z + off.z;
        let f = normalize3(-off.x, -off.y, -off.z);
        let un = normalize3(probe.x - off.x, probe.y - off.y, probe.z - off.z);
        let cr = cross3(f, un);
        let s = normalize3(cr.x, cr.y, cr.z);
        let w = cross3(s, f);
        proof {
            crate::fixed::lemma_mul_bound(s.y as int, f.z as int, SCALE as int, SCALE as int);
            crate::fixed::lemma_mul_bound(s.z as int, f.y as int, SCALE as int, SCALE as int);
            crate::fixed::lemma_mul_bound(s.z as int, f.x as int, SCALE as int, SCALE as int);
            crate::fixed::lemma_mul_bound(s.x as int, f.z as int, SCALE as int, SCALE as int);
            crate::fixed::lemma_mul_bound(s.x as int, f.y as int, SCALE as int, SCALE as int);
            crate::fixed::lemma_mul_bound(s.y as int, f.x as int, SCALE as int, SCALE as int);
            lemma_tdiv_bound(s.y as int * f.z - s.z as int * f.y, SCALE as int, 2_000_000_000_000);
            lemma_tdiv_bound(s.z as int * f.x - s.x as int * f.z, SCALE as int, 2_000_000_000_000);
            lemma_tdiv_bound(s.x as int * f.y - s.y as int * f.x, SCALE as int, 2_000_000_000_000);
        }
        let ds = dot3(s, ex, ey, ez);
        let dw = dot3(w, ex, ey, ez);
        let df = dot3(f, ex, ey, ez);
        let view = Mat4 {
            m00: s.x as i128,
            m01: s.y as i128,
            m02: s.z as i128,
            m03: -(ds as i128),
            m10: w.x as i128,
            m11: w.y as i128,
            m12: w.z as i128,
            m13: -(dw as i128),
            m20: -(f.x as i128),
            m21: -(f.y as i128),
            m22: -(f.z as i128),
            m23: df as i128,
            m30: 0,
            m31: 0,
            m32: 0,
            m33: SCALE as i128,
        };
        let half = ((self.fovy as u64) / 2) as i64;
        let ch = cos_fp(half);
        let sh = sin_fp(half);
        proof {
            lemma_bhask_pos(half as int);
            vstd::arithmetic::div_mod::lemma_small_mod(half as nat, DEG360 as nat);
            assert(sin_spec(half as int) == crate::trig::bhask(half as int));
        }
        let fcot = div_trunc((ch as i128) * (SCALE as i128), sh as i128);
        proof {
            crate::fixed::lemma_mul_bound(ch as int, SCALE as int, SCALE as int, SCALE as int);
            lemma_tdiv_bound(ch as int * SCALE, sh as int, 1_000_000_000_000);
            assert(1_000_000_000_000int / (sh as int) <= 1_000_000_000_000) by (nonlinear_arith)
                requires sh >= 1;
        }
        let m00 = div_trunc(fcot * (SCALE as i128), self.aspect as i128);
        proof {
            crate::fixed::lemma_mul_bound(fcot as int, SCALE as int, 1_000_000_000_000, SCALE as int);
            lemma_tdiv_bound(fcot as int * SCALE, self.aspect as int, 1_000_000_000_000_000_000);
            vstd::arithmetic::div_mod::lemma_div_is_ordered_by_denominator(
                1_000_000_000_000_000_000,
                1_000,
                self.aspect as int,
            );
        }
        let zf = self.zfar as i128;
        let zn = self.znear as i128;
        let m22n = div_trunc((zf + zn) * (SCALE as i128), zf - zn);
        proof {
            vstd::arithmetic::div_mod::lemma_div_is_ordered(
                (zf + zn) * (SCALE as int),
                (zf - zn) * 3_000_000,
                zf as int - zn as int,
            );
            vstd::arithmetic::div_mod::lemma_div_multiples_vanish(
                3_000_000,
                zf as int - zn as int,
            );
            vstd::arithmetic::div_mod::lemma_div_pos_is_pos((zf + zn) * (SCALE as int), zf as int - zn as int);
            assert((zf - zn) * 3_000_000 == 3_000_000 * (zf - zn)) by (nonlinear_arith);
        }
        proof {
            crate::fixed::lemma_mul_bound(
                2 * (zf as int),
                zn as int,
                2_000_000_000_000,
                1_000_000_000_000,
            );
        }
        let m23n = div_trunc(2 * zf * zn, zf - zn);
        proof {
            assert(2 * zf * zn <= (zf - zn) * 4_000_000_000_000) by (nonlinear_arith)
                requires
                    2 * (zn as int) <= zf as int,
                    1_000 <= zn as int,
                    zf as int <= RANGE_MAX as int,
            ;
            assert(2 * zf * zn >= 0) by (nonlinear_arith)
                requires 0 <= zn, 0 <= zf;
            vstd::arithmetic::div_mod::lemma_div_is_ordered(
                2 * (zf as int) * (zn as int),
                (zf - zn) * 4_000_000_000_000,
                zf as int - zn as int,
            );
            vstd::arithmetic::div_mod::lemma_div_multiples_vanish(
                4_000_000_000_000,
                zf as int - zn as int,
            );
            vstd::arithmetic::div_mod::lemma_div_pos_is_pos(2 * (zf as int) * (zn as int), zf as int - zn as int);
            assert((zf - zn) * 4_000_000_000_000 == 4_000_000_000_000 * (zf - zn)) by (nonlinear_arith);
        }
        let proj = Mat4 {
            m00,
            m01: 0,
            m02: 0,
            m03: 0,
            m10: 0,
            m11: fcot,
            m12: 0,
            m13: 0,
            m20: 0,
            m21: 0,
            m22: -m22n,
            m23: -m23n,
            m30: 0,
            m31: 0,
            m32: -(SCALE as i128),
            m33: 0,
        };
        let corr = Mat4 {
            m00: -(SCALE as i128),
            m01: 0,
            m02: 0,
            m03: 0,
            m10: 0,
            m11: -(SCALE as i128),
            m12: 0,
            m13: 0,
            m20: 0,
            m21: 0,
            m22: 500_000,
            m23: 0,
            m30: 0,
            m31: 0,
            m32: 500_000,
            m33: SCALE as i128,
        };
        proof {
            assert(mat_bounded(view, 48_000_000_000_000));
            assert(mat_bounded(proj, 1_000_000_000_000_000));
            assert(mat_bounded(corr, 1_000_000));
        }
        let pv = mat_mul(&proj, &view, Ghost(1_000_000_000_000_000int), Ghost(48_000_000_000_000int));
        proof {
            assert((4 * 1_000_000_000_000_000int * 48_000_000_000_000int) / (SCALE as int)
                == 192_000_000_000_000_000_000_000int);
            assert(mat_bounded(pv, 192_000_000_000_000_000_000_000int));
        }
        let vp = mat_mul(&corr, &pv, Ghost(1_000_000int), Ghost(192_000_000_000_000_000_000_000int));
        proof {
            assert(mat_to_g(view) == view_g(*self));
            assert(mat_to_g(proj) == proj_g(*self));
            assert(mat_to_g(corr) == corr_g());
        }
        CameraUniform {
            camera_pos: Vec4i { x: ex, y: ey, z: ez, w: SCALE },
            view_proj: vp,
        }
    }
}

} // verus!
