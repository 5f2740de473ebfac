//! Fixed-point arithmetic in micro-units.
//!
//! A quantity of one world unit (one second, one radian, one world
//! coordinate) is carried as the integer `SCALE`; products and quotients
//! of such quantities round toward zero, exactly as hardware integer
//! division does.

use vstd::prelude::*;

verus! {

/// Number of micro-units in one world unit.
pub const SCALE: i64 = 1_000_000;

/// The value fits a signed 64-bit machine word.
pub open spec fn in64(x: int) -> bool {
    i64::MIN <= x <= i64::MAX
}

/// Magnitude of an integer.
pub open spec fn iabs(a: int) -> int {
    if a >= 0 {
        a
    } else {
        -a
    }
}

/// Truncating (round-toward-zero) division, the semantics of `/` on
/// machine integers. The divisor must not be zero.
pub open spec fn tdiv(a: int, d: int) -> int {
    if (a < 0) <==> (d < 0) {
        iabs(a) / iabs(d)
    } else {
        -(iabs(a) / iabs(d))
    }
}

/// Fixed-point product of two micro-unit quantities.
pub open spec fn fmul(a: int, b: int) -> int {
    tdiv(a * b, SCALE as int)
}

/// Fixed-point quotient of two micro-unit quantities.
pub open spec fn fdiv(a: int, b: int) -> int {
    tdiv(a * (SCALE as int), b)
}

/// Truncating division of a wide intermediate value, narrowed to 64 bits.
fn tdiv128(n: i128, d: i128) -> (r: i64)
    requires
        d != 0,
        n > i128::MIN,
        d > i128::MIN,
        i64::MIN <= tdiv(n as int, d as int) <= i64::MAX,
    ensures
        r == tdiv(n as int, d as int),
{
    let nm: u128 = if n >= 0 {
        n as u128
    } else {
        (-n) as u128
    };
    let dm: u128 = if d >= 0 {
        d as u128
    } else {
        (-d) as u128
    };
    let q: u128 = nm / dm;
    if (n < 0) != (d < 0) {
        (-(q as i128)) as i64
    } else {
        q as i64
    }
}

/// Truncating division on 64-bit values, with the quotient required to fit.
pub fn tdiv64(a: i64, d: i64) -> (r: i64)
    requires
        d != 0,
        i64::MIN <= tdiv(a as int, d as int) <= i64::MAX,
    ensures
        r == tdiv(a as int, d as int),
{
    tdiv128(a as i128, d as i128)
}

/// Fixed-point multiplication, with the product required to fit.
pub fn fmul64(a: i64, b: i64) -> (r: i64)
    requires
        i64::MIN <= fmul(a as int, b as int) <= i64::MAX,
    ensures
        r == fmul(a as int, b as int),
{
    proof {
        lemma_i64_product_bounded(a as int, b as int);
    }
    let n: i128 = (a as i128) * (b as i128);
    tdiv128(n, SCALE as i128)
}

/// Fixed-point division, with the quotient required to fit.
pub fn fdiv64(a: i64, b: i64) -> (r: i64)
    requires
        b != 0,
        i64::MIN <= fdiv(a as int, b as int) <= i64::MAX,
    ensures
        r == fdiv(a as int, b as int),
{
    let n: i128 = (a as i128) * (SCALE as i128);
    tdiv128(n, b as i128)
}

proof fn lemma_abs_mul(x: int, y: int)
    ensures
        iabs(x * y) == iabs(x) * iabs(y),
{
    assert(iabs(x * y) == iabs(x) * iabs(y)) by (nonlinear_arith);
}

/// The magnitude of a truncating quotient by a positive divisor.
pub proof fn lemma_tdiv_mag(n: int, d: int)
    requires
        d > 0,
    ensures
        iabs(tdiv(n, d)) == iabs(n) / d,
{
    vstd::arithmetic::div_mod::lemma_div_pos_is_pos(iabs(n), d);
}

/// The magnitude of a fixed-point product is bounded by the product of
/// the operands' magnitude bounds, scaled back down.
pub proof fn lemma_fmul_mag(a: int, b: int, am: int, bm: int)
    requires
        iabs(a) <= am,
        iabs(b) <= bm,
    ensures
        iabs(fmul(a, b)) <= (am * bm) / (SCALE as int),
{
    lemma_abs_mul(a, b);
    vstd::arithmetic::mul::lemma_mul_upper_bound(iabs(a), am, iabs(b), bm);
    vstd::arithmetic::div_mod::lemma_div_is_ordered(iabs(a * b), am * bm, SCALE as int);
    lemma_tdiv_mag(a * b, SCALE as int);
}

/// The magnitude of a fixed-point ratio of `a` to `b` stays within one
/// unit when `a` is no larger than `b` in magnitude.
pub proof fn lemma_fdiv_ratio_le_one(a: int, b: int)
    requires
        b != 0,
        iabs(a) <= iabs(b),
    ensures
        iabs(fdiv(a, b)) <= SCALE as int,
{
    lemma_abs_mul(a, SCALE as int);
    vstd::arithmetic::mul::lemma_mul_inequality(iabs(a), iabs(b), SCALE as int);
    vstd::arithmetic::div_mod::lemma_div_is_ordered(
        iabs(a) * (SCALE as int),
        iabs(b) * (SCALE as int),
        iabs(b),
    );
    vstd::arithmetic::div_mod::lemma_div_by_multiple(SCALE as int, iabs(b));
    assert(iabs(b) * (SCALE as int) == (SCALE as int) * iabs(b)) by (nonlinear_arith);
    assert(iabs(tdiv(a * (SCALE as int), b)) == iabs(a * (SCALE as int)) / iabs(b)) by {
        vstd::arithmetic::div_mod::lemma_div_pos_is_pos(iabs(a * (SCALE as int)), iabs(b));
    }
}

proof fn lemma_i64_product_bounded(a: int, b: int)
    requires
        -0x8000_0000_0000_0000 <= a <= 0x7fff_ffff_ffff_ffff,
        -0x8000_0000_0000_0000 <= b <= 0x7fff_ffff_ffff_ffff,
    ensures
        -0x4000_0000_0000_0000_0000_0000_0000_0000 <= a * b
            <= 0x4000_0000_0000_0000_0000_0000_0000_0000,
{
    assert(-0x4000_0000_0000_0000_0000_0000_0000_0000 <= a * b
        <= 0x4000_0000_0000_0000_0000_0000_0000_0000) by (nonlinear_arith)
        requires
            -0x8000_0000_0000_0000 <= a <= 0x7fff_ffff_ffff_ffff,
            -0x8000_0000_0000_0000 <= b <= 0x7fff_ffff_ffff_ffff,
    ;
}


/// Truncating division by a positive divisor never grows the
/// magnitude.
pub proof fn lemma_tdiv_shrinks(a: int, d: int)
    requires
        d >= 1,
    ensures
        iabs(tdiv(a, d)) <= iabs(a),
{
    lemma_tdiv_mag(a, d);
    vstd::arithmetic::div_mod::lemma_div_nonincreasing(iabs(a), d);
}

/// A fixed-point quotient by a divisor of at least one unit never
/// grows the magnitude.
pub proof fn lemma_fdiv_shrinks(a: int, b: int)
    requires
        iabs(b) >= SCALE as int,
    ensures
        iabs(fdiv(a, b)) <= iabs(a),
{
    lemma_abs_mul(a, SCALE as int);
    assert(iabs(tdiv(a * (SCALE as int), b)) == iabs(a * (SCALE as int)) / iabs(b)) by {
        vstd::arithmetic::div_mod::lemma_div_pos_is_pos(iabs(a * (SCALE as int)), iabs(b));
    }
    vstd::arithmetic::div_mod::lemma_div_is_ordered_by_denominator(
        iabs(a) * (SCALE as int),
        SCALE as int,
        iabs(b),
    );
    vstd::arithmetic::div_mod::lemma_div_by_multiple(iabs(a), SCALE as int);
}

/// The magnitude of a fixed-point quotient, bounded through the
/// numerator's bound and the divisor's lower bound.
pub proof fn lemma_fdiv_mag(a: int, b: int, am: int, bm: int)
    requires
        iabs(a) <= am,
        1 <= bm <= iabs(b),
    ensures
        iabs(fdiv(a, b)) <= (am * (SCALE as int)) / bm,
{
    lemma_abs_mul(a, SCALE as int);
    assert(iabs(tdiv(a * (SCALE as int), b)) == iabs(a * (SCALE as int)) / iabs(b)) by {
        vstd::arithmetic::div_mod::lemma_div_pos_is_pos(iabs(a * (SCALE as int)), iabs(b));
    }
    vstd::arithmetic::mul::lemma_mul_inequality(iabs(a), am, SCALE as int);
    vstd::arithmetic::div_mod::lemma_div_is_ordered_by_denominator(
        iabs(a) * (SCALE as int),
        bm,
        iabs(b),
    );
    vstd::arithmetic::div_mod::lemma_div_is_ordered(
        iabs(a) * (SCALE as int),
        am * (SCALE as int),
        bm,
    );
}

/// Multiplying by a factor of at least one unit never shrinks a
/// non-negative value.
pub proof fn lemma_fmul_ge(a: int, b: int)
    requires
        a >= 0,
        b >= SCALE as int,
    ensures
        fmul(a, b) >= a,
        fmul(a, b) >= 0,
{
    vstd::arithmetic::mul::lemma_mul_inequality(SCALE as int, b, a);
    assert(a * (SCALE as int) <= a * b) by (nonlinear_arith)
        requires
            a >= 0,
            SCALE as int <= b,
    ;
    vstd::arithmetic::div_mod::lemma_div_is_ordered(a * (SCALE as int), a * b, SCALE as int);
    vstd::arithmetic::div_mod::lemma_div_by_multiple(a, SCALE as int);
    assert(a * b >= 0) by (nonlinear_arith)
        requires
            a >= 0,
            b >= 0,
    ;
    lemma_tdiv_mag(a * b, SCALE as int);
}

} // verus!
