//! Fixed-point scalar arithmetic.
//!
//! Quantities are `i64` values scaled by [`SCALE`]: the real number `q`
//! is stored as `q * SCALE` rounded toward zero. All operations here are
//! exact integer arithmetic with division truncated toward zero, matching
//! the behaviour of hardware division on the magnitudes.

use vstd::arithmetic::div_mod::{
    lemma_div_by_multiple, lemma_div_is_ordered, lemma_div_pos_is_pos,
    lemma_fundamental_div_mod, lemma_mod_division_less_than_divisor,
};
use vstd::prelude::*;

verus! {

/// Number of fixed-point steps per unit: one unit is `SCALE` steps.
pub const SCALE: i64 = 1_000_000;

/// Largest coordinate magnitude the library accepts, in fixed-point steps.
/// Chosen so that a squared distance of two in-range coordinates, summed
/// over three axes, still fits in `i64`.
pub const COORD_LIMIT: i64 = 750_000_000;

/// Sub-step refinement of the normalization divisor: the square root of a
/// squared norm is taken at a resolution of `1 / SQRT_REFINE` steps, so
/// that even the smallest nonzero directions scale to unit length instead
/// of being divided by a root rounded down to whole steps.
pub const SQRT_REFINE: i64 = 1_000;

/// Least squared norm of a normalized nonzero vector:
/// `SCALE * SCALE - 6 * SCALE - 2`, the loss coming from truncating each
/// component once.
pub const UNIT_NORM_SQ_MIN: i64 = SCALE * SCALE - 6 * SCALE - 2;

/// Greatest squared norm of a normalized nonzero vector:
/// `(SCALE + SCALE / SQRT_REFINE) * (SCALE + SCALE / SQRT_REFINE)`, the
/// excess coming from the refined root being short by at most one part in
/// `SQRT_REFINE`.
pub const UNIT_NORM_SQ_MAX: i64 = 1_001_000 * 1_001_000;

/// Division truncated toward zero, the behaviour of Rust's `/` on `i64`.
/// Meaningful for `b > 0`.
pub open spec fn tdiv(a: int, b: int) -> int {
    if a >= 0 {
        a / b
    } else {
        -((-a) / b)
    }
}

/// Floor of the nonnegative square root, as the unique `r >= 0` with
/// `r * r <= n < (r + 1) * (r + 1)`.
pub open spec fn sqrt_floor(n: int) -> int {
    choose|r: int| r >= 0 && #[trigger] (r * r) <= n && n < (r + 1) * (r + 1)
}

/// The floor square root is unique.
pub proof fn lemma_sqrt_floor_unique(n: int, r1: int, r2: int)
    requires
        r1 >= 0,
        r1 * r1 <= n,
        n < (r1 + 1) * (r1 + 1),
        r2 >= 0,
        r2 * r2 <= n,
        n < (r2 + 1) * (r2 + 1),
    ensures
        r1 == r2,
{
    assert(r1 == r2) by (nonlinear_arith)
        requires
            r1 >= 0,
            r1 * r1 <= n,
            n < (r1 + 1) * (r1 + 1),
            r2 >= 0,
            r2 * r2 <= n,
            n < (r2 + 1) * (r2 + 1),
    ;
}

/// The floor square root exists for every nonnegative argument, so
/// [`sqrt_floor`] denotes it: `sqrt_floor(n)` is nonnegative and brackets
/// `n` between its square and the next square.
pub proof fn lemma_sqrt_floor_props(n: int)
    requires
        n >= 0,
    ensures
        sqrt_floor(n) >= 0,
        sqrt_floor(n) * sqrt_floor(n) <= n,
        n < (sqrt_floor(n) + 1) * (sqrt_floor(n) + 1),
    decreases n,
{
    if n == 0 {
        assert(exists|r: int| r >= 0 && #[trigger] (r * r) <= n && n < (r + 1) * (r + 1)) by {
            assert(0 >= 0 && (0int) * (0int) <= n && n < (0 + 1) * (0 + 1));
        }
    } else {
        lemma_sqrt_floor_props(n - 1);
        let p = sqrt_floor(n - 1);
        if (p + 1) * (p + 1) <= n {
            assert(n < (p + 2) * (p + 2)) by (nonlinear_arith)
                requires
                    p >= 0,
                    n - 1 < (p + 1) * (p + 1),
                    (p + 1) * (p + 1) <= n,
            ;
            assert(exists|r: int| r >= 0 && #[trigger] (r * r) <= n && n < (r + 1) * (r + 1))
                by {
                assert(p + 1 >= 0 && (p + 1) * (p + 1) <= n && n < ((p + 1) + 1) * ((p + 1)
                    + 1));
            }
        } else {
            assert(exists|r: int| r >= 0 && #[trigger] (r * r) <= n && n < (r + 1) * (r + 1))
                by {
                assert(p >= 0 && p * p <= n && n < (p + 1) * (p + 1));
            }
        }
    }
}

/// Truncated division of `a` by a positive divisor `d`.
pub fn div_trunc(a: i64, d: i64) -> (r: i64)
    requires
        d > 0,
        a > i64::MIN,
    ensures
        r == tdiv(a as int, d as int),
{
    if a >= 0 {
        let q: u64 = (a as u64) / (d as u64);
        q as i64
    } else {
        let na: u64 = (-a) as u64;
        let q: u64 = na / (d as u64);
        -(q as i64)
    }
}

/// A quotient is no larger in magnitude than a bound on the dividend
/// divided by the divisor.
pub proof fn lemma_tdiv_magnitude(a: int, d: int, m: int)
    requires
        d > 0,
        m >= 0,
        -(d * m) <= a <= d * m,
    ensures
        -m <= tdiv(a, d) <= m,
{
    lemma_div_by_multiple(m, d);
    if a >= 0 {
        lemma_div_is_ordered(a, m * d, d);
        lemma_div_pos_is_pos(a, d);
    } else {
        lemma_div_is_ordered(-a, m * d, d);
        lemma_div_pos_is_pos(-a, d);
    }
}

/// Largest factor magnitude [`fx_mul`] accepts.
pub const FX_FACTOR_LIMIT: i64 = 4_000_000;

/// Fixed-point product: the integer product scaled back down by [`SCALE`],
/// truncated toward zero.
pub open spec fn fx_mul_spec(a: int, b: int) -> int {
    tdiv(a * b, SCALE as int)
}

/// Fixed-point multiplication of two bounded factors.
pub fn fx_mul(a: i64, b: i64) -> (r: i64)
    requires
        -FX_FACTOR_LIMIT <= a <= FX_FACTOR_LIMIT,
        -FX_FACTOR_LIMIT <= b <= FX_FACTOR_LIMIT,
    ensures
        r == fx_mul_spec(a as int, b as int),
        -16_000_000 <= r <= 16_000_000,
{
    proof {
        assert(-16_000_000_000_000 <= (a as int) * (b as int) <= 16_000_000_000_000)
            by (nonlinear_arith)
            requires
                -FX_FACTOR_LIMIT <= a <= FX_FACTOR_LIMIT,
                -FX_FACTOR_LIMIT <= b <= FX_FACTOR_LIMIT,
        ;
        lemma_tdiv_magnitude((a as int) * (b as int), SCALE as int, 16_000_000);
    }
    let p: i64 = a * b;
    div_trunc(p, SCALE)
}

/// Floor square root, by binary search on the root. The bound on the
/// input leaves room for a squared norm refined by `SQRT_REFINE * SQRT_REFINE`.
pub fn isqrt(n: u128) -> (r: u64)
    requires
        n < 19_342_813_113_834_066_795_298_816,
    ensures
        r * r <= n,
        n < (r + 1) * (r + 1),
        r == sqrt_floor(n as int),
        r < 4_398_046_511_104,
{
    let mut lo: u64 = 0;
    let mut hi: u64 = 4_398_046_511_104;
    proof {
        assert((hi as int) * (hi as int) > n as int) by (nonlinear_arith)
            requires
                hi == 4_398_046_511_104u64,
                n < 19_342_813_113_834_066_795_298_816u128,
        ;
    }
    while hi - lo > 1
        invariant
            0 <= lo < hi <= 4_398_046_511_104,
            (lo as int) * (lo as int) <= n as int,
            (n as int) < (hi as int) * (hi as int),
        decreases hi - lo,
    {
        let mid: u64 = lo + (hi - lo) / 2;
        proof {
            assert((mid as int) * (mid as int) <= u128::MAX as int) by (nonlinear_arith)
                requires
                    mid <= 4_398_046_511_104u64,
            ;
        }
        let sq: u128 = (mid as u128) * (mid as u128);
        if sq <= n {
            lo = mid;
        } else {
            hi = mid;
        }
    }
    proof {
        assert((n as int) < (lo + 1) * (lo + 1)) by (nonlinear_arith)
            requires
                hi == lo + 1,
                (n as int) < (hi as int) * (hi as int),
        ;
        lemma_sqrt_floor_unique(n as int, lo as int, sqrt_floor(n as int));
    }
    lo
}

/// Truncated division brackets the dividend: writing `q` for `tdiv(a, d)`,
/// the magnitude of `a` lies in `[|q| * d, (|q| + 1) * d)`.
pub proof fn lemma_tdiv_envelope(a: int, d: int)
    requires
        d > 0,
    ensures
        a >= 0 ==> tdiv(a, d) >= 0 && tdiv(a, d) * d <= a < (tdiv(a, d) + 1) * d,
        a < 0 ==> tdiv(a, d) <= 0 && (-tdiv(a, d)) * d <= -a < (-tdiv(a, d) + 1) * d,
{
    if a >= 0 {
        lemma_fundamental_div_mod(a, d);
        lemma_mod_division_less_than_divisor(a, d);
        lemma_div_pos_is_pos(a, d);
        assert(d * (a / d) == (a / d) * d) by (nonlinear_arith);
        assert((a / d + 1) * d == (a / d) * d + d) by (nonlinear_arith);
    } else {
        lemma_fundamental_div_mod(-a, d);
        lemma_mod_division_less_than_divisor(-a, d);
        lemma_div_pos_is_pos(-a, d);
        assert(d * ((-a) / d) == ((-a) / d) * d) by (nonlinear_arith);
        assert(((-a) / d + 1) * d == ((-a) / d) * d + d) by (nonlinear_arith);
    }
}

/// Squared envelope of one normalized component `q = tdiv(c * 10^9, l)`
/// with `aq` the magnitude of `q`:
/// `q^2 * l^2 <= c^2 * 10^18 < (q^2 + 2 * aq + 1) * l^2`.
proof fn lemma_component_envelope(c: int, l: int, q: int, aq: int)
    requires
        l > 0,
        q == tdiv(c * 1_000_000_000, l),
        aq == (if q >= 0 {
            q
        } else {
            -q
        }),
    ensures
        q * q * (l * l) <= (c * c) * 1_000_000_000_000_000_000,
        (c * c) * 1_000_000_000_000_000_000 < (q * q + 2 * aq + 1) * (l * l),
{
    let a = c * 1_000_000_000;
    lemma_tdiv_envelope(a, l);
    if a >= 0 {
        assert(q * q * (l * l) <= a * a && a * a < (q * q + 2 * aq + 1) * (l * l))
            by (nonlinear_arith)
            requires
                q >= 0,
                aq == q,
                q * l <= a,
                a < (q + 1) * l,
                l > 0,
        ;
    } else {
        assert(q * q * (l * l) <= a * a && a * a < (q * q + 2 * aq + 1) * (l * l))
            by (nonlinear_arith)
            requires
                q <= 0,
                aq == -q,
                aq * l <= -a,
                -a < (aq + 1) * l,
                l > 0,
        ;
    }
    assert(a * a == (c * c) * 1_000_000_000_000_000_000) by (nonlinear_arith)
        requires
            a == c * 1_000_000_000,
    ;
}

/// A vector normalized against the refined floor root of its squared norm
/// has squared norm within the stated tolerance of one squared unit:
/// `l` is the floor square root of the squared norm refined by
/// `SQRT_REFINE * SQRT_REFINE`, and each `q` is the matching coordinate
/// scaled by `SCALE * SQRT_REFINE` and divided by `l`, truncated.
pub proof fn lemma_unit_norm_sq_bounds(
    x: int,
    y: int,
    z: int,
    l: int,
    qx: int,
    qy: int,
    qz: int,
)
    requires
        l >= SQRT_REFINE,
        l * l <= (x * x + y * y + z * z) * 1_000_000,
        (x * x + y * y + z * z) * 1_000_000 < (l + 1) * (l + 1),
        qx == tdiv(x * 1_000_000_000, l),
        qy == tdiv(y * 1_000_000_000, l),
        qz == tdiv(z * 1_000_000_000, l),
        -SCALE <= qx <= SCALE,
        -SCALE <= qy <= SCALE,
        -SCALE <= qz <= SCALE,
    ensures
        UNIT_NORM_SQ_MIN <= qx * qx + qy * qy + qz * qz <= UNIT_NORM_SQ_MAX,
{
    let ns = x * x + y * y + z * z;
    let qq = qx * qx + qy * qy + qz * qz;
    let t = l * l;
    let u = (l + 1) * (l + 1);
    let aqx = if qx >= 0 {
        qx
    } else {
        -qx
    };
    let aqy = if qy >= 0 {
        qy
    } else {
        -qy
    };
    let aqz = if qz >= 0 {
        qz
    } else {
        -qz
    };
    lemma_component_envelope(x, l, qx, aqx);
    lemma_component_envelope(y, l, qy, aqy);
    lemma_component_envelope(z, l, qz, aqz);

    // Upper bound: qq * l^2 <= ns * 10^18 < (l+1)^2 * 10^12, and
    // (l+1)^2 * 10^6 <= 1_002_001 * l^2 once l >= 1000.
    assert(qq * t <= ns * 1_000_000_000_000_000_000) by (nonlinear_arith)
        requires
            qq == qx * qx + qy * qy + qz * qz,
            ns == x * x + y * y + z * z,
            t == l * l,
            qx * qx * (l * l) <= (x * x) * 1_000_000_000_000_000_000,
            qy * qy * (l * l) <= (y * y) * 1_000_000_000_000_000_000,
            qz * qz * (l * l) <= (z * z) * 1_000_000_000_000_000_000,
    ;
    assert(ns * 1_000_000_000_000_000_000 < u * 1_000_000_000_000) by (nonlinear_arith)
        requires
            ns * 1_000_000 < u,
    ;
    assert(u * 1_000_000 <= 1_002_001 * t) by (nonlinear_arith)
        requires
            u == (l + 1) * (l + 1),
            t == l * l,
            l >= 1000,
    ;
    assert((qq * 1_000_000) * t < (1_002_001 * 1_000_000_000_000) * t) by (nonlinear_arith)
        requires
            qq * t <= ns * 1_000_000_000_000_000_000,
            ns * 1_000_000_000_000_000_000 < u * 1_000_000_000_000,
            u * 1_000_000 <= 1_002_001 * t,
            t >= 1,
    ;
    assert(qq * 1_000_000 < 1_002_001 * 1_000_000_000_000) by (nonlinear_arith)
        requires
            (qq * 1_000_000) * t < (1_002_001 * 1_000_000_000_000) * t,
            t >= 1,
    ;

    // Lower bound: l^2 * 10^12 <= ns * 10^18 < (qq + 2 * (sum of
    // magnitudes) + 3) * l^2, and the magnitudes sum to at most 3 * SCALE.
    assert(ns * 1_000_000_000_000_000_000 < (qq + 2 * (aqx + aqy + aqz) + 3) * t)
        by (nonlinear_arith)
        requires
            qq == qx * qx + qy * qy + qz * qz,
            ns == x * x + y * y + z * z,
            t == l * l,
            (x * x) * 1_000_000_000_000_000_000 < (qx * qx + 2 * aqx + 1) * (l * l),
            (y * y) * 1_000_000_000_000_000_000 < (qy * qy + 2 * aqy + 1) * (l * l),
            (z * z) * 1_000_000_000_000_000_000 < (qz * qz + 2 * aqz + 1) * (l * l),
    ;
    assert(t * 1_000_000_000_000 <= ns * 1_000_000_000_000_000_000) by (nonlinear_arith)
        requires
            t <= ns * 1_000_000,
    ;
    assert(1_000_000_000_000 < qq + 2 * (aqx + aqy + aqz) + 3) by (nonlinear_arith)
        requires
            t * 1_000_000_000_000 < (qq + 2 * (aqx + aqy + aqz) + 3) * t,
            t >= 1,
    ;
}

} // verus!
