//! Fixed-point angle computation for instantaneous aiming.
//!
//! `atan2_fixed` maps a cursor offset to an angle in micro-radians by
//! octant reduction and a quadratic arctangent approximation; the spec
//! functions below are its exact definition, and its range is pinned to
//! one turn.

use vstd::prelude::*;

use crate::fixed::{fdiv, fdiv64, fmul, fmul64, iabs, lemma_fdiv_ratio_le_one, lemma_fmul_mag,
    SCALE};

verus! {

/// One half turn, in micro-radians.
pub const PI_M: i64 = 3_141_593;

/// A quarter turn, in micro-radians.
pub const HALF_PI_M: i64 = 1_570_796;

/// An eighth turn, in micro-radians.
pub const QUARTER_PI_M: i64 = 785_398;

/// Coefficient of the quadratic arctangent approximation
/// `atan(z) ~ z * (pi/4 + 0.273 * (1 - |z|))` for `|z| <= 1`.
pub const ATAN_K: i64 = 273_000;

/// The arctangent approximation on a ratio `z` with `|z| <= 1`.
pub open spec fn atan_poly(z: int) -> int {
    fmul(z, QUARTER_PI_M + fmul(ATAN_K as int, (SCALE as int) - iabs(z)))
}

/// The angle of the vector `(x, y)`, in micro-radians within one half
/// turn of zero, by octant reduction over `atan_poly`; zero for the
/// zero vector.
pub open spec fn atan2_approx(y: int, x: int) -> int {
    if y == 0 && x == 0 {
        0
    } else if iabs(y) <= iabs(x) {
        let base = atan_poly(fdiv(y, x));
        if x > 0 {
            base
        } else if y >= 0 {
            base + PI_M
        } else {
            base - PI_M
        }
    } else {
        let base = atan_poly(fdiv(x, y));
        if y > 0 {
            HALF_PI_M - base
        } else {
            -(HALF_PI_M as int) - base
        }
    }
}

/// `atan_poly` stays within an eighth turn plus the approximation
/// slack whenever its argument is a reduced ratio.
pub proof fn lemma_atan_poly_bounded(z: int)
    requires
        iabs(z) <= SCALE as int,
    ensures
        iabs(atan_poly(z)) <= QUARTER_PI_M + ATAN_K,
        iabs(fmul(ATAN_K as int, (SCALE as int) - iabs(z))) <= ATAN_K as int,
{
    lemma_fmul_mag(ATAN_K as int, (SCALE as int) - iabs(z), ATAN_K as int, SCALE as int);
    lemma_fmul_mag(
        z,
        QUARTER_PI_M + fmul(ATAN_K as int, (SCALE as int) - iabs(z)),
        SCALE as int,
        QUARTER_PI_M + ATAN_K,
    );
}

fn atan_poly_fixed(z: i64) -> (r: i64)
    requires
        iabs(z as int) <= SCALE as int,
    ensures
        r == atan_poly(z as int),
        iabs(r as int) <= QUARTER_PI_M + ATAN_K,
{
    proof {
        lemma_atan_poly_bounded(z as int);
    }
    let zm: i64 = if z >= 0 {
        z
    } else {
        -z
    };
    let inner = fmul64(ATAN_K, SCALE - zm);
    fmul64(z, QUARTER_PI_M + inner)
}

/// The aiming angle of the vector `(x, y)`: within one half turn of
/// zero (up to the approximation slack), zero for the zero vector.
pub fn atan2_fixed(y: i64, x: i64) -> (r: i64)
    requires
        y > i64::MIN,
        x > i64::MIN,
    ensures
        r == atan2_approx(y as int, x as int),
        iabs(r as int) <= PI_M + QUARTER_PI_M + ATAN_K,
{
    let ym: i64 = if y >= 0 {
        y
    } else {
        -y
    };
    let xm: i64 = if x >= 0 {
        x
    } else {
        -x
    };
    if y == 0 && x == 0 {
        0
    } else if ym <= xm {
        proof {
            lemma_fdiv_ratio_le_one(y as int, x as int);
        }
        let base = atan_poly_fixed(fdiv64(y, x));
        if x > 0 {
            base
        } else if y >= 0 {
            base + PI_M
        } else {
            base - PI_M
        }
    } else {
        proof {
            lemma_fdiv_ratio_le_one(x as int, y as int);
        }
        let base = atan_poly_fixed(fdiv64(x, y));
        if y > 0 {
            HALF_PI_M - base
        } else {
            -HALF_PI_M - base
        }
    }
}

} // verus!
