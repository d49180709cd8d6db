//! Fixed-point 3D vectors: positions, direction vectors, and the
//! operations the spatialization logic needs — squared distance,
//! normalization to (approximately) unit length, and the simplified
//! Rodrigues rotation by 90 degrees about a unit axis.

use crate::math::{
    div_trunc, fx_mul, fx_mul_spec, isqrt, lemma_sqrt_floor_props, lemma_tdiv_magnitude,
    lemma_unit_norm_sq_bounds, sqrt_floor, tdiv, COORD_LIMIT, SCALE, SQRT_REFINE,
    UNIT_NORM_SQ_MAX, UNIT_NORM_SQ_MIN,
};
use vstd::prelude::*;

verus! {

/// A 3D vector with fixed-point components (see [`crate::math::SCALE`]).
#[derive(Clone, Copy, Debug, PartialEq, Eq, Structural)]
pub struct FxVec3 {
    pub x: i64,
    pub y: i64,
    pub z: i64,
}

impl FxVec3 {
    /// Components stay within the accepted coordinate range; holds for
    /// every world position handed to the library.
    pub open spec fn in_bounds(self) -> bool {
        &&& -COORD_LIMIT <= self.x <= COORD_LIMIT
        &&& -COORD_LIMIT <= self.y <= COORD_LIMIT
        &&& -COORD_LIMIT <= self.z <= COORD_LIMIT
    }

    /// Components stay within twice the coordinate range; holds for the
    /// difference of any two in-range positions.
    pub open spec fn dir_bounds(self) -> bool {
        &&& -2 * (COORD_LIMIT as int) <= self.x <= 2 * (COORD_LIMIT as int)
        &&& -2 * (COORD_LIMIT as int) <= self.y <= 2 * (COORD_LIMIT as int)
        &&& -2 * (COORD_LIMIT as int) <= self.z <= 2 * (COORD_LIMIT as int)
    }

    /// Components no larger in magnitude than one unit; holds for every
    /// normalized or zero vector.
    pub open spec fn unit_bounded(self) -> bool {
        &&& -SCALE <= self.x <= SCALE
        &&& -SCALE <= self.y <= SCALE
        &&& -SCALE <= self.z <= SCALE
    }

    /// The zero vector.
    pub open spec fn is_zero(self) -> bool {
        self.x == 0 && self.y == 0 && self.z == 0
    }

    /// Squared Euclidean norm, exact in the fixed-point domain (so scaled
    /// by `SCALE * SCALE` relative to world units).
    pub open spec fn norm_sq_spec(self) -> int {
        (self.x as int) * (self.x as int) + (self.y as int) * (self.y as int) + (self.z as int)
            * (self.z as int)
    }

    /// The zero vector, as a value.
    pub fn zero() -> (r: FxVec3)
        ensures
            r.is_zero(),
            r.unit_bounded(),
    {
        FxVec3 { x: 0, y: 0, z: 0 }
    }

    /// Componentwise difference.
    pub fn sub(self, other: FxVec3) -> (r: FxVec3)
        requires
            self.in_bounds(),
            other.in_bounds(),
        ensures
            r.x == self.x - other.x,
            r.y == self.y - other.y,
            r.z == self.z - other.z,
            r.dir_bounds(),
    {
        FxVec3 { x: self.x - other.x, y: self.y - other.y, z: self.z - other.z }
    }

    /// Squared Euclidean norm.
    pub fn norm_sq(self) -> (r: i64)
        requires
            self.dir_bounds(),
        ensures
            r == self.norm_sq_spec(),
            r >= 0,
            (self.x as int) * (self.x as int) <= r,
            (self.y as int) * (self.y as int) <= r,
            (self.z as int) * (self.z as int) <= r,
    {
        proof {
            assert({
                &&& 0 <= (self.x as int) * (self.x as int) <= 2_250_000_000_000_000_000
                &&& 0 <= (self.y as int) * (self.y as int) <= 2_250_000_000_000_000_000
                &&& 0 <= (self.z as int) * (self.z as int) <= 2_250_000_000_000_000_000
            }) by (nonlinear_arith)
                requires
                    self.dir_bounds(),
            ;
        }
        let xx: i64 = self.x * self.x;
        let yy: i64 = self.y * self.y;
        let zz: i64 = self.z * self.z;
        xx + yy + zz
    }
}

/// Squared Euclidean distance between two positions.
pub open spec fn dist_sq_spec(a: FxVec3, b: FxVec3) -> int {
    (a.x - b.x) * (a.x - b.x) + (a.y - b.y) * (a.y - b.y) + (a.z - b.z) * (a.z - b.z)
}

/// One component of the normalized vector: the component scaled to unit
/// length against the floor square root of the squared norm `ns`, or zero
/// when `ns` is zero. The root is taken at a resolution of
/// `1 / SQRT_REFINE` steps (the squared norm refined by
/// `SQRT_REFINE * SQRT_REFINE`, the component by `SQRT_REFINE`), so that
/// even the smallest nonzero directions scale to unit length.
pub open spec fn normalized_coord(c: int, ns: int) -> int {
    if ns == 0 {
        0
    } else {
        tdiv(
            c * (SCALE as int) * (SQRT_REFINE as int),
            sqrt_floor(ns * (SQRT_REFINE as int) * (SQRT_REFINE as int)),
        )
    }
}

/// The normalized vector as a value: each component scaled against the
/// floor square root of the squared norm, the zero vector staying zero.
pub open spec fn normalize_spec(v: FxVec3) -> FxVec3 {
    FxVec3 {
        x: normalized_coord(v.x as int, v.norm_sq_spec()) as i64,
        y: normalized_coord(v.y as int, v.norm_sq_spec()) as i64,
        z: normalized_coord(v.z as int, v.norm_sq_spec()) as i64,
    }
}

impl FxVec3 {
    /// Squared Euclidean distance to another position.
    pub fn dist_sq(self, other: FxVec3) -> (r: i64)
        requires
            self.in_bounds(),
            other.in_bounds(),
        ensures
            r == dist_sq_spec(self, other),
    {
        self.sub(other).norm_sq()
    }

    /// Scale the direction to unit length; the zero vector stays the zero
    /// vector, so there is no division by zero. A nonzero direction, of
    /// any admitted magnitude, comes out with a squared norm between
    /// `UNIT_NORM_SQ_MIN` and `UNIT_NORM_SQ_MAX` — zero or unit length,
    /// up to that stated tolerance.
    pub fn normalize_or_zero(self) -> (r: FxVec3)
        requires
            self.dir_bounds(),
        ensures
            r.x == normalized_coord(self.x as int, self.norm_sq_spec()),
            r.y == normalized_coord(self.y as int, self.norm_sq_spec()),
            r.z == normalized_coord(self.z as int, self.norm_sq_spec()),
            r.unit_bounded(),
            r == normalize_spec(self),
            self.norm_sq_spec() == 0 ==> r.is_zero(),
            self.is_zero() ==> r.is_zero(),
            self.norm_sq_spec() != 0 ==> UNIT_NORM_SQ_MIN <= r.norm_sq_spec()
                <= UNIT_NORM_SQ_MAX,
    {
        let ns: i64 = self.norm_sq();
        if ns == 0 {
            FxVec3 { x: 0, y: 0, z: 0 }
        } else {
            let refined: u128 = (ns as u128) * 1_000_000;
            let len_w: u64 = isqrt(refined);
            let len: i64 = len_w as i64;
            proof {
                assert(refined as int == (ns as int) * 1_000_000);
                assert(len == sqrt_floor((ns as int) * 1_000_000));
                assert(len_w >= 1000) by (nonlinear_arith)
                    requires
                        (ns as int) * 1_000_000 < ((len_w as int) + 1) * ((len_w as int) + 1),
                        ns >= 1,
                ;
                assert(self.x * 1000 <= len && -len <= self.x * 1000) by (nonlinear_arith)
                    requires
                        (self.x as int) * (self.x as int) <= ns as int,
                        (ns as int) * 1_000_000 < (len + 1) * (len + 1),
                        len >= 1,
                ;
                assert(self.y * 1000 <= len && -len <= self.y * 1000) by (nonlinear_arith)
                    requires
                        (self.y as int) * (self.y as int) <= ns as int,
                        (ns as int) * 1_000_000 < (len + 1) * (len + 1),
                        len >= 1,
                ;
                assert(self.z * 1000 <= len && -len <= self.z * 1000) by (nonlinear_arith)
                    requires
                        (self.z as int) * (self.z as int) <= ns as int,
                        (ns as int) * 1_000_000 < (len + 1) * (len + 1),
                        len >= 1,
                ;
            }
            let r = FxVec3 {
                x: scale_to_unit(self.x, len),
                y: scale_to_unit(self.y, len),
                z: scale_to_unit(self.z, len),
            };
            proof {
                lemma_unit_norm_sq_bounds(
                    self.x as int,
                    self.y as int,
                    self.z as int,
                    len as int,
                    r.x as int,
                    r.y as int,
                    r.z as int,
                );
            }
            r
        }
    }
}

/// The direction invariant, at the level of the spec value: every
/// normalized nonzero vector is unit length up to the stated tolerance,
/// its squared norm between `UNIT_NORM_SQ_MIN` and `UNIT_NORM_SQ_MAX`.
pub proof fn lemma_normalize_spec_near_unit(v: FxVec3)
    requires
        v.norm_sq_spec() != 0,
    ensures
        UNIT_NORM_SQ_MIN <= normalize_spec(v).norm_sq_spec() <= UNIT_NORM_SQ_MAX,
{
    let x = v.x as int;
    let y = v.y as int;
    let z = v.z as int;
    let ns = v.norm_sq_spec();
    assert(x * x >= 0 && y * y >= 0 && z * z >= 0) by (nonlinear_arith);
    lemma_sqrt_floor_props(ns * 1_000_000);
    let l = sqrt_floor(ns * 1_000_000);
    assert(l >= 1000) by (nonlinear_arith)
        requires
            ns * 1_000_000 < (l + 1) * (l + 1),
            ns >= 1,
            l >= 0,
    ;
    assert(x * 1000 <= l && -l <= x * 1000) by (nonlinear_arith)
        requires
            x * x <= ns,
            ns * 1_000_000 < (l + 1) * (l + 1),
            l >= 1,
    ;
    assert(y * 1000 <= l && -l <= y * 1000) by (nonlinear_arith)
        requires
            y * y <= ns,
            ns * 1_000_000 < (l + 1) * (l + 1),
            l >= 1,
    ;
    assert(z * 1000 <= l && -l <= z * 1000) by (nonlinear_arith)
        requires
            z * z <= ns,
            ns * 1_000_000 < (l + 1) * (l + 1),
            l >= 1,
    ;
    lemma_tdiv_magnitude(x * 1_000_000_000, l, 1_000_000);
    lemma_tdiv_magnitude(y * 1_000_000_000, l, 1_000_000);
    lemma_tdiv_magnitude(z * 1_000_000_000, l, 1_000_000);
    let qx = normalized_coord(x, ns);
    let qy = normalized_coord(y, ns);
    let qz = normalized_coord(z, ns);
    lemma_unit_norm_sq_bounds(x, y, z, l, qx, qy, qz);
}

/// One component of normalization: `c * SCALE * SQRT_REFINE / len`,
/// truncated toward zero, for a root `len` refined by `SQRT_REFINE`.
/// Because `len` bounds the magnitude of the refined component, the
/// result is at most one unit in magnitude.
fn scale_to_unit(c: i64, len: i64) -> (r: i64)
    requires
        1 <= len < 4_398_046_511_104,
        -2_000_000_000 <= c <= 2_000_000_000,
        -len <= c * 1000 <= len,
    ensures
        r == tdiv((c as int) * (SCALE as int) * (SQRT_REFINE as int), len as int),
        -SCALE <= r <= SCALE,
{
    proof {
        lemma_tdiv_magnitude((c as int) * 1_000_000_000, len as int, SCALE as int);
    }
    div_trunc(c * 1_000_000_000, len)
}

/// Fixed-point dot product of two unit-bounded vectors.
pub open spec fn dot_spec(a: FxVec3, b: FxVec3) -> int {
    fx_mul_spec(a.x as int, b.x as int) + fx_mul_spec(a.y as int, b.y as int) + fx_mul_spec(
        a.z as int,
        b.z as int,
    )
}

/// Components of the fixed-point cross product.
pub open spec fn cross_x_spec(a: FxVec3, b: FxVec3) -> int {
    fx_mul_spec(a.y as int, b.z as int) - fx_mul_spec(a.z as int, b.y as int)
}

pub open spec fn cross_y_spec(a: FxVec3, b: FxVec3) -> int {
    fx_mul_spec(a.z as int, b.x as int) - fx_mul_spec(a.x as int, b.z as int)
}

pub open spec fn cross_z_spec(a: FxVec3, b: FxVec3) -> int {
    fx_mul_spec(a.x as int, b.y as int) - fx_mul_spec(a.y as int, b.x as int)
}

/// Components of the Rodrigues rotation by 90 degrees of `v` about `axis`:
/// at 90 degrees the general formula collapses to
/// `axis x v + axis * (axis . v)`.
pub open spec fn rotate90_x_spec(v: FxVec3, axis: FxVec3) -> int {
    cross_x_spec(axis, v) + fx_mul_spec(axis.x as int, dot_spec(axis, v))
}

pub open spec fn rotate90_y_spec(v: FxVec3, axis: FxVec3) -> int {
    cross_y_spec(axis, v) + fx_mul_spec(axis.y as int, dot_spec(axis, v))
}

pub open spec fn rotate90_z_spec(v: FxVec3, axis: FxVec3) -> int {
    cross_z_spec(axis, v) + fx_mul_spec(axis.z as int, dot_spec(axis, v))
}

/// The rotated vector as a value.
pub open spec fn rotate90_spec(v: FxVec3, axis: FxVec3) -> FxVec3 {
    FxVec3 {
        x: rotate90_x_spec(v, axis) as i64,
        y: rotate90_y_spec(v, axis) as i64,
        z: rotate90_z_spec(v, axis) as i64,
    }
}

impl FxVec3 {
    /// Fixed-point dot product.
    pub fn dot(self, other: FxVec3) -> (r: i64)
        requires
            self.unit_bounded(),
            other.unit_bounded(),
        ensures
            r == dot_spec(self, other),
            -3_000_000 <= r <= 3_000_000,
    {
        proof {
            lemma_unit_term_bound(self.x as int, other.x as int);
            lemma_unit_term_bound(self.y as int, other.y as int);
            lemma_unit_term_bound(self.z as int, other.z as int);
        }
        fx_mul(self.x, other.x) + fx_mul(self.y, other.y) + fx_mul(self.z, other.z)
    }

    /// Fixed-point cross product.
    pub fn cross(self, other: FxVec3) -> (r: FxVec3)
        requires
            self.unit_bounded(),
            other.unit_bounded(),
        ensures
            r.x == cross_x_spec(self, other),
            r.y == cross_y_spec(self, other),
            r.z == cross_z_spec(self, other),
            -2_000_000 <= r.x <= 2_000_000,
            -2_000_000 <= r.y <= 2_000_000,
            -2_000_000 <= r.z <= 2_000_000,
    {
        proof {
            lemma_unit_term_bound(self.y as int, other.z as int);
            lemma_unit_term_bound(self.z as int, other.y as int);
            lemma_unit_term_bound(self.z as int, other.x as int);
            lemma_unit_term_bound(self.x as int, other.z as int);
            lemma_unit_term_bound(self.x as int, other.y as int);
            lemma_unit_term_bound(self.y as int, other.x as int);
        }
        FxVec3 {
            x: fx_mul(self.y, other.z) - fx_mul(self.z, other.y),
            y: fx_mul(self.z, other.x) - fx_mul(self.x, other.z),
            z: fx_mul(self.x, other.y) - fx_mul(self.y, other.x),
        }
    }

    /// Rodrigues rotation by 90 degrees about a unit axis, in the
    /// simplified two-term form `axis x v + axis * (axis . v)`.
    pub fn rotate_90(self, axis: FxVec3) -> (r: FxVec3)
        requires
            self.unit_bounded(),
            axis.unit_bounded(),
        ensures
            r.x == rotate90_x_spec(self, axis),
            r.y == rotate90_y_spec(self, axis),
            r.z == rotate90_z_spec(self, axis),
            r == rotate90_spec(self, axis),
    {
        let c: FxVec3 = axis.cross(self);
        let d: i64 = axis.dot(self);
        FxVec3 {
            x: c.x + fx_mul(axis.x, d),
            y: c.y + fx_mul(axis.y, d),
            z: c.z + fx_mul(axis.z, d),
        }
    }
}

/// A fixed-point product of unit-bounded factors is at most one unit in
/// magnitude.
proof fn lemma_unit_term_bound(a: int, b: int)
    requires
        -SCALE <= a <= SCALE,
        -SCALE <= b <= SCALE,
    ensures
        -SCALE <= fx_mul_spec(a, b) <= SCALE,
{
    assert(-(SCALE as int) * (SCALE as int) <= a * b <= (SCALE as int) * (SCALE as int))
        by (nonlinear_arith)
        requires
            -SCALE <= a <= SCALE,
            -SCALE <= b <= SCALE,
    ;
    lemma_tdiv_magnitude(a * b, SCALE as int, SCALE as int);
}

} // verus!
