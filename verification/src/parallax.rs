//! The procedural, infinite, seed-stable parallax starfield.
//!
//! Every sector of every depth plane draws its stars from a
//! pseudo-random stream seeded purely by `(plane, sector_x, sector_y)`
//! through a stable integer hash, so identical coordinates yield
//! byte-identical stars across frames and across process restarts,
//! with no global random state.

use vstd::prelude::*;

use rand_core::{Rng, SeedableRng};

use crate::components::Point;
use crate::consts::{DEFAULT_ZOOM_M, WINDOW_HALF_H_M, WINDOW_HALF_W_M, ZOOM_FACTOR_M};
use crate::fixed::{
    fdiv, fdiv64, fmul, fmul64, iabs, in64, lemma_fmul_mag, tdiv, tdiv64, SCALE,
};

verus! {

/// Number of depth planes, drawn back to front.
pub const PLANES: u64 = 4;

/// Zoom steps (whole scroll notches) separating neighbouring planes.
pub const ZOOM_STEPS_PER_PLANE: u64 = 10;

/// Side of a procedural grid sector, in micro-units.
pub const SECTOR_SIZE_M: i64 = 100_000_000;

/// Stars drawn in every sector.
pub const STARS_PER_SECTOR: u64 = 6;

/// On-screen radius of a star at the default zoom, in micro-units.
pub const STAR_RADIUS_M: i64 = 50_000;

/// Random words drawn per sector: six per star.
pub const WORDS_PER_SECTOR: u64 = 36;

/// One background star: a world-space position inside its sector and a
/// mostly-grey color, channels in micro-units of full brightness.
#[derive(Clone, Copy, Debug, PartialEq, Eq, Structural)]
pub struct Star {
    pub x: i64,
    pub y: i64,
    pub red: i64,
    pub green: i64,
    pub blue: i64,
    pub alpha: i64,
}

/// One 64-bit mixing round: multiply modulo 2^64, then fold the high
/// bits down.
pub open spec fn mix_round(a: u64, m: int) -> u64 {
    let p = (((a as int) * m) % 0x1_0000_0000_0000_0000) as u64;
    p ^ (p >> 33)
}

/// The stable 64-bit mixer behind the sector seeds.
pub open spec fn mix64(a: u64) -> u64 {
    mix_round(mix_round(a ^ (a >> 33), 0xff51_afd7_ed55_8ccd), 0xc4ce_b9fe_1a85_ec53)
}

fn mix_round_fixed(a: u64, m: u64) -> (r: u64)
    ensures
        r == mix_round(a, m as int),
{
    proof {
        vstd::arithmetic::mul::lemma_mul_upper_bound(
            a as int,
            0xffff_ffff_ffff_ffff,
            m as int,
            0xffff_ffff_ffff_ffff,
        );
    }
    let p128: u128 = (a as u128) * (m as u128);
    let p: u64 = (p128 % 0x1_0000_0000_0000_0000u128) as u64;
    p ^ (p >> 33u64)
}

fn mix64_fixed(a: u64) -> (r: u64)
    ensures
        r == mix64(a),
{
    mix_round_fixed(mix_round_fixed(a ^ (a >> 33u64), 0xff51_afd7_ed55_8ccd), 0xc4ce_b9fe_1a85_ec53)
}

/// The 64-bit seed of a sector: a pure, stable function of the plane
/// and the sector's grid coordinates.
pub open spec fn sector_seed(plane: u64, kx: i64, ky: i64) -> u64 {
    mix64(mix64(mix64(plane) ^ (kx as u64)) ^ (ky as u64))
}

fn sector_seed_fixed(plane: u64, kx: i64, ky: i64) -> (r: u64)
    ensures
        r == sector_seed(plane, kx, ky),
{
    mix64_fixed(mix64_fixed(mix64_fixed(plane) ^ (kx as u64)) ^ (ky as u64))
}

/// Byte `j` of a 64-bit word, little-endian.
pub open spec fn byte_of(h: u64, j: int) -> u8 {
    (h >> ((8 * j) as u64)) as u8
}

/// The 16-byte generator seed: the 64-bit sector seed twice over,
/// little-endian.
pub open spec fn seed_bytes(h: u64) -> Seq<u8> {
    Seq::new(16, |j: int| byte_of(h, j % 8))
}

fn seed_bytes_fixed(h: u64) -> (r: Vec<u8>)
    ensures
        r@ == seed_bytes(h),
{
    let mut r: Vec<u8> = Vec::new();
    let mut j: u64 = 0;
    while j < 16
        invariant
            0 <= j <= 16,
            r@.len() == j,
            forall|i: int| 0 <= i < j ==> r@[i] == byte_of(h, i % 8),
        decreases 16 - j,
    {
        r.push((h >> ((8 * (j % 8)) as u64)) as u8);
        j = j + 1;
    }
    proof {
        assert(r@ =~= seed_bytes(h));
    }
    r
}

/// The stream of words that a xorshift generator, seeded with the
/// given 16 bytes, produces: a function of the seed alone, identical
/// in every process and on every machine.
pub uninterp spec fn xorshift_words(seed: Seq<u8>, n: int) -> Seq<u64>;

/// Relies on rand_xorshift's XorShiftRng: seeded from exactly these 16
/// bytes, its word stream is deterministic, depending on the seed
/// alone.
#[verifier::external_body]
fn xorshift_stream(seed: &Vec<u8>, n: u64) -> (r: Vec<u64>)
    requires
        seed@.len() == 16,
    ensures
        r@.len() == n,
        r@ == xorshift_words(seed@, n as int),
{
    let mut key = [0u8; 16];
    key.copy_from_slice(seed.as_slice());
    let mut rng = rand_xorshift::XorShiftRng::from_seed(key);
    let mut out = Vec::new();
    for _ in 0..n {
        out.push(rng.next_u64());
    }
    out
}

/// The floor of the square root, as a recurrence.
pub open spec fn isqrt_spec(n: int) -> int
    decreases
            (if n >= 0 {
                n
            } else {
                0
            }),
{
    if n <= 0 {
        0
    } else {
        let r = isqrt_spec(n - 1);
        if (r + 1) * (r + 1) <= n {
            r + 1
        } else {
            r
        }
    }
}

pub proof fn lemma_isqrt_spec_bounds(n: int)
    requires
        n >= 0,
    ensures
        0 <= isqrt_spec(n),
        isqrt_spec(n) * isqrt_spec(n) <= n,
        n < (isqrt_spec(n) + 1) * (isqrt_spec(n) + 1),
    decreases n,
{
    if n > 0 {
        lemma_isqrt_spec_bounds(n - 1);
        let r = isqrt_spec(n - 1);
        if (r + 1) * (r + 1) <= n {
            assert(n < ((r + 1) + 1) * ((r + 1) + 1)) by (nonlinear_arith)
                requires
                    n - 1 < (r + 1) * (r + 1),
                    r >= 0,
            ;
        }
    }
}

proof fn lemma_isqrt_unique(n: int, r: int)
    requires
        n >= 0,
        r >= 0,
        r * r <= n,
        n < (r + 1) * (r + 1),
    ensures
        r == isqrt_spec(n),
{
    lemma_isqrt_spec_bounds(n);
    let s = isqrt_spec(n);
    assert(r == s) by (nonlinear_arith)
        requires
            r >= 0,
            s >= 0,
            r * r <= n,
            n < (r + 1) * (r + 1),
            s * s <= n,
            n < (s + 1) * (s + 1),
    ;
}

/// The floor of the square root of a 64-bit value, by bisection.
pub fn isqrt(n: u64) -> (r: u64)
    ensures
        r == isqrt_spec(n as int),
        r * r <= n,
{
    let mut lo: u64 = 0;
    let mut hi: u64 = 0x1_0000_0000;
    while hi - lo > 1
        invariant
            lo < hi <= 0x1_0000_0000,
            (lo as int) * (lo as int) <= n as int,
            (n as int) < (hi as int) * (hi as int),
        decreases hi - lo,
    {
        let mid = lo + (hi - lo) / 2;
        proof {
            vstd::arithmetic::mul::lemma_mul_upper_bound(
                mid as int,
                0x1_0000_0000,
                mid as int,
                0x1_0000_0000,
            );
        }
        if (mid as u128) * (mid as u128) <= n as u128 {
            lo = mid;
        } else {
            hi = mid;
        }
    }
    proof {
        lemma_isqrt_unique(n as int, lo as int);
        assert((lo as int) * (lo as int) <= n as int);
    }
    lo
}

/// A random word folded onto `[0, SCALE]`: a micro-unit fraction.
pub open spec fn unit_of(w: u64) -> int {
    (w as int) % ((SCALE + 1) as int)
}

/// The grey level of a star: the square root of a uniform fraction,
/// pushed toward brightness, at nine tenths.
pub open spec fn grey_of(w: u64) -> int {
    isqrt_spec(unit_of(w) * (SCALE as int)) * 9 / 10
}

/// A tinted channel: the grey level plus a tenth of another uniform
/// fraction.
pub open spec fn channel_of(g: int, w: u64) -> int {
    g + unit_of(w) / 10
}

/// Star `s` of a sector whose origin is `(x0, y0)`, drawn from the
/// sector's word stream: six words a star, one for the grey level, two
/// for the position inside the sector, three for the tint.
pub open spec fn star_of(words: Seq<u64>, x0: int, y0: int, s: int) -> Star {
    let g = grey_of(words[6 * s]);
    Star {
        x: (x0 + (words[6 * s + 1] as int) % (SECTOR_SIZE_M as int)) as i64,
        y: (y0 + (words[6 * s + 2] as int) % (SECTOR_SIZE_M as int)) as i64,
        red: channel_of(g, words[6 * s + 3]) as i64,
        green: channel_of(g, words[6 * s + 4]) as i64,
        blue: channel_of(g, words[6 * s + 5]) as i64,
        alpha: SCALE,
    }
}

/// All stars of one sector: a pure function of the plane and the
/// sector's grid coordinates (through the seed and the word stream),
/// with the sector origin only placing them in world space.
pub open spec fn sector_stars_spec(plane: u64, kx: i64, ky: i64, x0: int, y0: int) -> Seq<Star> {
    let words = xorshift_words(seed_bytes(sector_seed(plane, kx, ky)), WORDS_PER_SECTOR as int);
    Seq::new(STARS_PER_SECTOR as nat, |s: int| star_of(words, x0, y0, s))
}

/// Generate one sector's stars.
pub fn sector_stars(plane: u64, kx: i64, ky: i64, x0: i64, y0: i64) -> (r: Vec<Star>)
    requires
        iabs(x0 as int) <= 0x2000_0000_0000_0000,
        iabs(y0 as int) <= 0x2000_0000_0000_0000,
    ensures
        r@ == sector_stars_spec(plane, kx, ky, x0 as int, y0 as int),
        r@.len() == STARS_PER_SECTOR,
{
    let seed = seed_bytes_fixed(sector_seed_fixed(plane, kx, ky));
    let words = xorshift_stream(&seed, WORDS_PER_SECTOR);
    let ghost wseq = words@;
    let mut r: Vec<Star> = Vec::new();
    let mut s: u64 = 0;
    while s < STARS_PER_SECTOR
        invariant
            0 <= s <= STARS_PER_SECTOR,
            wseq.len() == WORDS_PER_SECTOR,
            wseq == xorshift_words(seed_bytes(sector_seed(plane, kx, ky)), WORDS_PER_SECTOR as int),
            words@ == wseq,
            iabs(x0 as int) <= 0x2000_0000_0000_0000,
            iabs(y0 as int) <= 0x2000_0000_0000_0000,
            r@.len() == s,
            forall|i: int| 0 <= i < s ==> r@[i] == star_of(wseq, x0 as int, y0 as int, i),
        decreases STARS_PER_SECTOR - s,
    {
        let base = (s * 6) as usize;
        let g64 = isqrt((words[base] % ((SCALE + 1) as u64)) * (SCALE as u64));
        proof {
            lemma_isqrt_spec_bounds(unit_of(wseq[6 * s as int]) * (SCALE as int));
            assert(isqrt_spec(unit_of(wseq[6 * s as int]) * (SCALE as int)) <= 1_000_000)
                by (nonlinear_arith)
                requires
                    isqrt_spec(unit_of(wseq[6 * s as int]) * (SCALE as int)) >= 0,
                    isqrt_spec(unit_of(wseq[6 * s as int]) * (SCALE as int)) * isqrt_spec(
                        unit_of(wseq[6 * s as int]) * (SCALE as int),
                    ) <= unit_of(wseq[6 * s as int]) * (SCALE as int),
                    unit_of(wseq[6 * s as int]) * (SCALE as int) <= 1_000_000_000_000,
            ;
        }
        let g = (g64 as i64) * 9 / 10;
        let star = Star {
            x: x0 + ((words[base + 1] % (SECTOR_SIZE_M as u64)) as i64),
            y: y0 + ((words[base + 2] % (SECTOR_SIZE_M as u64)) as i64),
            red: g + ((words[base + 3] % ((SCALE + 1) as u64)) as i64) / 10,
            green: g + ((words[base + 4] % ((SCALE + 1) as u64)) as i64) / 10,
            blue: g + ((words[base + 5] % ((SCALE + 1) as u64)) as i64) / 10,
            alpha: SCALE,
        };
        r.push(star);
        s = s + 1;
    }
    proof {
        assert(r@ =~= sector_stars_spec(plane, kx, ky, x0 as int, y0 as int));
    }
    r
}

/// The determinism law of the starfield: the stars of a sector are a
/// function of `(plane, sector)` alone, so any two generations from
/// identical coordinates, in this process or another, are identical.
pub proof fn lemma_parallax_deterministic(
    plane: u64,
    kx: i64,
    ky: i64,
    x0: int,
    y0: int,
    first: Seq<Star>,
    second: Seq<Star>,
)
    requires
        first == sector_stars_spec(plane, kx, ky, x0, y0),
        second == sector_stars_spec(plane, kx, ky, x0, y0),
    ensures
        first == second,
{
}


/// The fixed-point power of a base: `SCALE` (one) at exponent zero.
pub open spec fn fpow(base: int, n: nat) -> int
    decreases n,
{
    if n == 0 {
        SCALE as int
    } else {
        fmul(fpow(base, (n - 1) as nat), base)
    }
}

/// Powers of the zoom base grow with the exponent and stay above one.
pub proof fn lemma_fpow_zf_grows(n: nat)
    ensures
        fpow(ZOOM_FACTOR_M as int, n) >= SCALE as int,
        n >= 1 ==> fpow(ZOOM_FACTOR_M as int, n) >= fpow(ZOOM_FACTOR_M as int, (n - 1) as nat),
    decreases n,
{
    if n >= 1 {
        lemma_fpow_zf_grows((n - 1) as nat);
        crate::fixed::lemma_fmul_ge(fpow(ZOOM_FACTOR_M as int, (n - 1) as nat), ZOOM_FACTOR_M as int);
    }
}

/// One zoom-base multiplication at most doubles a non-negative value.
proof fn lemma_fmul_zf_doubles(a: int)
    requires
        a >= 0,
    ensures
        0 <= fmul(a, ZOOM_FACTOR_M as int) <= 2 * a,
{
    assert(a * (ZOOM_FACTOR_M as int) >= 0) by (nonlinear_arith)
        requires
            a >= 0,
    ;
    assert(a * (ZOOM_FACTOR_M as int) <= (2 * a) * (SCALE as int)) by (nonlinear_arith)
        requires
            a >= 0,
    ;
    crate::fixed::lemma_tdiv_mag(a * (ZOOM_FACTOR_M as int), SCALE as int);
    vstd::arithmetic::div_mod::lemma_div_is_ordered(
        a * (ZOOM_FACTOR_M as int),
        (2 * a) * (SCALE as int),
        SCALE as int,
    );
    vstd::arithmetic::div_mod::lemma_div_by_multiple(2 * a, SCALE as int);
}

/// Powers of the zoom base are bounded by the matching power of two.
pub proof fn lemma_fpow_zf_capped(n: nat)
    ensures
        0 <= fpow(ZOOM_FACTOR_M as int, n) <= vstd::arithmetic::power2::pow2(n) * (SCALE as int),
    decreases n,
{
    if n == 0 {
        assert(vstd::arithmetic::power2::pow2(0) == 1) by {
            vstd::arithmetic::power2::lemma2_to64();
        }
    } else {
        lemma_fpow_zf_capped((n - 1) as nat);
        lemma_fmul_zf_doubles(fpow(ZOOM_FACTOR_M as int, (n - 1) as nat));
        assert(vstd::arithmetic::power2::pow2(n) == 2 * vstd::arithmetic::power2::pow2(
            (n - 1) as nat,
        )) by {
            vstd::arithmetic::power::lemma_pow_adds(2, 1nat, (n - 1) as nat);
            vstd::arithmetic::power::lemma_pow1(2);
            vstd::arithmetic::power::lemma_pow_positive(2, n);
            vstd::arithmetic::power::lemma_pow_positive(2, (n - 1) as nat);
        }
        assert(2 * fpow(ZOOM_FACTOR_M as int, (n - 1) as nat) <= 2 * (
        vstd::arithmetic::power2::pow2((n - 1) as nat) * (SCALE as int)));
        assert(2 * (vstd::arithmetic::power2::pow2((n - 1) as nat) * (SCALE as int)) == (2
            * vstd::arithmetic::power2::pow2((n - 1) as nat)) * (SCALE as int))
            by (nonlinear_arith);
    }
}

/// The effective zoom divisor of a plane: the zoom base raised to the
/// plane's step count.
pub open spec fn plane_zoom_change(p: u64) -> int {
    fpow(ZOOM_FACTOR_M as int, (p * ZOOM_STEPS_PER_PLANE) as nat)
}

/// Compute a power of the zoom base.
pub fn zf_power(n: u64) -> (z: i64)
    requires
        n <= 30,
    ensures
        z == fpow(ZOOM_FACTOR_M as int, n as nat),
        SCALE <= z <= 2_200_000_000_000_000,
{
    let mut acc: i64 = SCALE;
    let mut i: u64 = 0;
    while i < n
        invariant
            n <= 30,
            0 <= i <= n,
            acc == fpow(ZOOM_FACTOR_M as int, i as nat),
            SCALE <= acc,
            acc <= 2_200_000_000_000_000,
        decreases n - i,
    {
        proof {
            lemma_fpow_zf_grows((i + 1) as nat);
            lemma_fpow_zf_capped((i + 1) as nat);
            vstd::arithmetic::power2::lemma2_to64();
            assert(vstd::arithmetic::power2::pow2((i + 1) as nat) <= vstd::arithmetic::power2::pow2(
                31,
            )) by {
                vstd::arithmetic::power::lemma_pow_increases(
                    2,
                    (i + 1) as nat,
                    31nat,
                );
            }
            assert(vstd::arithmetic::power2::pow2((i + 1) as nat) * (SCALE as int)
                <= vstd::arithmetic::power2::pow2(31) * (SCALE as int)) by (nonlinear_arith)
                requires
                    vstd::arithmetic::power2::pow2((i + 1) as nat) <= vstd::arithmetic::power2::pow2(
                        31,
                    ),
            ;
        }
        acc = fmul64(acc, ZOOM_FACTOR_M);
        i = i + 1;
    }
    acc
}

/// Compute a plane's zoom divisor.
pub fn zoom_change_for_plane(p: u64) -> (z: i64)
    requires
        p < PLANES,
    ensures
        z == plane_zoom_change(p),
        SCALE <= z <= 2_200_000_000_000_000,
{
    zf_power(p * ZOOM_STEPS_PER_PLANE)
}

/// An axis-aligned world-to-clip transform: `clip = s * world + t` on
/// each axis, in micro-units, with no rotation term.
#[derive(Clone, Copy, Debug, PartialEq, Eq, Structural)]
pub struct Transform2 {
    pub sx: i64,
    pub sy: i64,
    pub tx: i64,
    pub ty: i64,
}

/// The viewport transform focused on a camera: translate to the screen
/// center, scale by the zoom, then translate by the negated camera
/// center, composed into one axis-aligned transform
/// `(sx, sy, tx, ty)`.
pub open spec fn composed_transform(t: Transform2, c: Point, zoom: int) -> (int, int, int, int) {
    let s2x = fmul(t.sx as int, zoom);
    let s2y = fmul(t.sy as int, zoom);
    let t1x = t.tx + fmul(t.sx as int, WINDOW_HALF_W_M as int);
    let t1y = t.ty + fmul(t.sy as int, WINDOW_HALF_H_M as int);
    (s2x, s2y, t1x + fmul(s2x, -(c.x as int)), t1y + fmul(s2y, -(c.y as int)))
}

/// Everything `transform_with_center_and_zoom` computes stays within
/// 64 bits.
pub open spec fn compose_fits(t: Transform2, c: Point, zoom: int) -> bool {
    let s2x = fmul(t.sx as int, zoom);
    let s2y = fmul(t.sy as int, zoom);
    let t1x = t.tx + fmul(t.sx as int, WINDOW_HALF_W_M as int);
    let t1y = t.ty + fmul(t.sy as int, WINDOW_HALF_H_M as int);
    &&& in64(s2x)
    &&& in64(s2y)
    &&& in64(fmul(t.sx as int, WINDOW_HALF_W_M as int))
    &&& in64(fmul(t.sy as int, WINDOW_HALF_H_M as int))
    &&& in64(t1x)
    &&& in64(t1y)
    &&& in64(fmul(s2x, -(c.x as int)))
    &&& in64(fmul(s2y, -(c.y as int)))
    &&& in64(t1x + fmul(s2x, -(c.x as int)))
    &&& in64(t1y + fmul(s2y, -(c.y as int)))
}

/// Compose the viewport transform with the camera center and zoom.
pub fn transform_with_center_and_zoom(t: Transform2, center: Point, zoom: i64) -> (r: Transform2)
    requires
        center.x > i64::MIN,
        center.y > i64::MIN,
        compose_fits(t, center, zoom as int),
    ensures
        r.sx == composed_transform(t, center, zoom as int).0,
        r.sy == composed_transform(t, center, zoom as int).1,
        r.tx == composed_transform(t, center, zoom as int).2,
        r.ty == composed_transform(t, center, zoom as int).3,
{
    let s2x = fmul64(t.sx, zoom);
    let s2y = fmul64(t.sy, zoom);
    let t1x = t.tx + fmul64(t.sx, WINDOW_HALF_W_M);
    let t1y = t.ty + fmul64(t.sy, WINDOW_HALF_H_M);
    Transform2 { sx: s2x, sy: s2y, tx: t1x + fmul64(s2x, -center.x), ty: t1y + fmul64(s2y, -center.y) }
}

/// The world-space rectangle a transform makes visible: the points it
/// maps into the clip range, one unit either side of zero, assuming no
/// rotation; found by inverting each axis.
pub open spec fn world_bounds(sx: int, sy: int, tx: int, ty: int) -> (int, int, int, int) {
    let xa = fdiv((SCALE as int) - tx, sx);
    let xb = fdiv(-(SCALE as int) - tx, sx);
    let ya = fdiv((SCALE as int) - ty, sy);
    let yb = fdiv(-(SCALE as int) - ty, sy);
    (
        if xa < xb { xa } else { xb },
        if ya < yb { ya } else { yb },
        if xa < xb { xb } else { xa },
        if ya < yb { yb } else { ya },
    )
}

/// Everything `world_bounds_for_transform` computes stays within 64
/// bits.
pub open spec fn bounds_fit(t: Transform2) -> bool {
    &&& in64((SCALE as int) - t.tx)
    &&& in64(-(SCALE as int) - t.tx)
    &&& in64((SCALE as int) - t.ty)
    &&& in64(-(SCALE as int) - t.ty)
    &&& in64(fdiv((SCALE as int) - t.tx, t.sx as int))
    &&& in64(fdiv(-(SCALE as int) - t.tx, t.sx as int))
    &&& in64(fdiv((SCALE as int) - t.ty, t.sy as int))
    &&& in64(fdiv(-(SCALE as int) - t.ty, t.sy as int))
}

/// Invert an axis-aligned transform to the world rectangle it shows:
/// the first point is the lower corner, the second the upper.
pub fn world_bounds_for_transform(t: Transform2) -> (r: (Point, Point))
    requires
        t.sx != 0,
        t.sy != 0,
        bounds_fit(t),
    ensures
        r.0.x == world_bounds(t.sx as int, t.sy as int, t.tx as int, t.ty as int).0,
        r.0.y == world_bounds(t.sx as int, t.sy as int, t.tx as int, t.ty as int).1,
        r.1.x == world_bounds(t.sx as int, t.sy as int, t.tx as int, t.ty as int).2,
        r.1.y == world_bounds(t.sx as int, t.sy as int, t.tx as int, t.ty as int).3,
{
    let xa = fdiv64(SCALE - t.tx, t.sx);
    let xb = fdiv64(-SCALE - t.tx, t.sx);
    let ya = fdiv64(SCALE - t.ty, t.sy);
    let yb = fdiv64(-SCALE - t.ty, t.sy);
    let (min_x, max_x) = if xa < xb {
        (xa, xb)
    } else {
        (xb, xa)
    };
    let (min_y, max_y) = if ya < yb {
        (ya, yb)
    } else {
        (yb, ya)
    };
    (Point { x: min_x, y: min_y }, Point { x: max_x, y: max_y })
}

/// The first sector origin at or below a bound, with one extra sector
/// of margin.
pub open spec fn sector_origin(m: int) -> int {
    (tdiv(m, SECTOR_SIZE_M as int) - 1) * (SECTOR_SIZE_M as int)
}

/// The stars of one column of sectors, from origin `y` up to `maxy`.
pub open spec fn stars_col(plane: u64, x: int, y: int, maxy: int) -> Seq<Star>
    decreases
            (if maxy - y >= 0 {
                maxy - y
            } else {
                0
            }),
{
    if y >= maxy {
        Seq::empty()
    } else {
        sector_stars_spec(
            plane,
            tdiv(x, SCALE as int) as i64,
            tdiv(y, SCALE as int) as i64,
            x,
            y,
        ) + stars_col(plane, x, y + SECTOR_SIZE_M as int, maxy)
    }
}

/// The stars of all sector columns from origin `x` up to `maxx`.
pub open spec fn stars_grid(plane: u64, x: int, maxx: int, y0: int, maxy: int) -> Seq<Star>
    decreases
            (if maxx - x >= 0 {
                maxx - x
            } else {
                0
            }),
{
    if x >= maxx {
        Seq::empty()
    } else {
        stars_col(plane, x, y0, maxy) + stars_grid(
            plane,
            x + SECTOR_SIZE_M as int,
            maxx,
            y0,
            maxy,
        )
    }
}

/// All stars of one plane over a visible world rectangle.
pub open spec fn plane_stars(plane: u64, minx: int, miny: int, maxx: int, maxy: int) -> Seq<
    Star,
> {
    stars_grid(plane, sector_origin(minx), maxx, sector_origin(miny), maxy)
}

/// Generate the stars of every grid sector overlapping the given world
/// rectangle, column by column, each sector from its own seed.
pub fn draw_parallax_points(plane: u64, minx: i64, miny: i64, maxx: i64, maxy: i64) -> (r: Vec<
    Star,
>)
    requires
        iabs(minx as int) <= 0x1000_0000_0000_0000,
        iabs(miny as int) <= 0x1000_0000_0000_0000,
        iabs(maxx as int) <= 0x1000_0000_0000_0000,
        iabs(maxy as int) <= 0x1000_0000_0000_0000,
    ensures
        r@ == plane_stars(plane, minx as int, miny as int, maxx as int, maxy as int),
{
    proof {
        crate::fixed::lemma_tdiv_mag(minx as int, SECTOR_SIZE_M as int);
        crate::fixed::lemma_tdiv_mag(miny as int, SECTOR_SIZE_M as int);
        vstd::arithmetic::div_mod::lemma_div_is_ordered(
            iabs(minx as int),
            0x1000_0000_0000_0000,
            SECTOR_SIZE_M as int,
        );
        vstd::arithmetic::div_mod::lemma_div_is_ordered(
            iabs(miny as int),
            0x1000_0000_0000_0000,
            SECTOR_SIZE_M as int,
        );
    }
    let x0 = (tdiv64(minx, SECTOR_SIZE_M) - 1) * SECTOR_SIZE_M;
    let y0 = (tdiv64(miny, SECTOR_SIZE_M) - 1) * SECTOR_SIZE_M;
    let mut out: Vec<Star> = Vec::new();
    let mut x = x0;
    proof {
        assert(plane_stars(plane, minx as int, miny as int, maxx as int, maxy as int) =~= out@
            + stars_grid(plane, x as int, maxx as int, y0 as int, maxy as int));
    }
    while x < maxx
        invariant
            iabs(maxx as int) <= 0x1000_0000_0000_0000,
            iabs(maxy as int) <= 0x1000_0000_0000_0000,
            x0 <= x,
            iabs(x0 as int) <= 0x1000_0000_0000_0000 + 200_000_000,
            iabs(y0 as int) <= 0x1000_0000_0000_0000 + 200_000_000,
            iabs(x as int) <= 0x1000_0000_0000_0000 + 400_000_000,
            plane_stars(plane, minx as int, miny as int, maxx as int, maxy as int) == out@
                + stars_grid(plane, x as int, maxx as int, y0 as int, maxy as int),
        decreases
                (if maxx - x >= 0 {
                    maxx - x
                } else {
                    0
                }),
    {
        let ghost outer_pre = out@;
        let mut y = y0;
        proof {
            assert(stars_grid(plane, x as int, maxx as int, y0 as int, maxy as int) == stars_col(
                plane,
                x as int,
                y0 as int,
                maxy as int,
            ) + stars_grid(
                plane,
                x as int + SECTOR_SIZE_M as int,
                maxx as int,
                y0 as int,
                maxy as int,
            ));
            assert(plane_stars(plane, minx as int, miny as int, maxx as int, maxy as int) =~= out@
                + stars_col(plane, x as int, y as int, maxy as int) + stars_grid(
                plane,
                x as int + SECTOR_SIZE_M as int,
                maxx as int,
                y0 as int,
                maxy as int,
            ));
        }
        while y < maxy
            invariant
                iabs(maxy as int) <= 0x1000_0000_0000_0000,
                x < maxx,
                iabs(x as int) <= 0x1000_0000_0000_0000 + 400_000_000,
                y0 <= y,
                iabs(y0 as int) <= 0x1000_0000_0000_0000 + 200_000_000,
                iabs(y as int) <= 0x1000_0000_0000_0000 + 400_000_000,
                plane_stars(plane, minx as int, miny as int, maxx as int, maxy as int) == out@
                    + stars_col(plane, x as int, y as int, maxy as int) + stars_grid(
                    plane,
                    x as int + SECTOR_SIZE_M as int,
                    maxx as int,
                    y0 as int,
                    maxy as int,
                ),
            decreases
                    (if maxy - y >= 0 {
                        maxy - y
                    } else {
                        0
                    }),
        {
            proof {
                crate::fixed::lemma_tdiv_shrinks(x as int, SCALE as int);
                crate::fixed::lemma_tdiv_shrinks(y as int, SCALE as int);
            }
            let kx = tdiv64(x, SCALE);
            let ky = tdiv64(y, SCALE);
            let ghost pre = out@;
            let mut stars = sector_stars(plane, kx, ky, x, y);
            out.append(&mut stars);
            proof {
                assert(stars_col(plane, x as int, y as int, maxy as int) == sector_stars_spec(
                    plane,
                    tdiv(x as int, SCALE as int) as i64,
                    tdiv(y as int, SCALE as int) as i64,
                    x as int,
                    y as int,
                ) + stars_col(plane, x as int, y as int + SECTOR_SIZE_M as int, maxy as int));
                assert(plane_stars(plane, minx as int, miny as int, maxx as int, maxy as int) =~= out@
                    + stars_col(plane, x as int, y as int + SECTOR_SIZE_M as int, maxy as int)
                    + stars_grid(
                    plane,
                    x as int + SECTOR_SIZE_M as int,
                    maxx as int,
                    y0 as int,
                    maxy as int,
                ));
            }
            y = y + SECTOR_SIZE_M;
        }
        proof {
            assert(stars_col(plane, x as int, y as int, maxy as int) =~= Seq::<Star>::empty());
            assert(plane_stars(plane, minx as int, miny as int, maxx as int, maxy as int) =~= out@
                + stars_grid(
                plane,
                x as int + SECTOR_SIZE_M as int,
                maxx as int,
                y0 as int,
                maxy as int,
            ));
        }
        x = x + SECTOR_SIZE_M;
    }
    proof {
        assert(stars_grid(plane, x as int, maxx as int, y0 as int, maxy as int) =~= Seq::<
            Star,
        >::empty());
        assert(out@ =~= plane_stars(plane, minx as int, miny as int, maxx as int, maxy as int));
    }
    out
}


/// One depth plane's drawable output: the transform to place its
/// points on screen, the star radius at this depth, and the stars of
/// every visible sector.
pub struct PlaneField {
    pub transform: Transform2,
    pub radius: i64,
    pub stars: Vec<Star>,
}

/// The effective zoom of a plane: the camera zoom divided by the
/// plane's zoom change.
pub open spec fn plane_zoom(zoom: int, p: u64) -> int {
    fdiv(zoom, plane_zoom_change(p))
}

/// The star radius of a plane, compensating depth and camera zoom back
/// to the default scale.
pub open spec fn plane_radius(zoom: int, p: u64) -> int {
    fmul(fdiv(fmul(STAR_RADIUS_M as int, plane_zoom_change(p)), zoom), DEFAULT_ZOOM_M as int)
}

/// What one drawn plane must hold: the composed transform at the
/// plane's effective zoom, the depth-compensated radius, and the stars
/// of the world rectangle that transform makes visible. A degenerate
/// transform (scale collapsed toward zero) shows no stars.
pub open spec fn plane_field_matches(
    f: PlaneField,
    base: Transform2,
    c: Point,
    zoom: int,
    p: u64,
) -> bool {
    let t = composed_transform(base, c, plane_zoom(zoom, p));
    &&& f.transform.sx == t.0
    &&& f.transform.sy == t.1
    &&& f.transform.tx == t.2
    &&& f.transform.ty == t.3
    &&& f.radius == plane_radius(zoom, p)
    &&& f.stars@ == if iabs(t.0) >= 100_000 && iabs(t.1) >= 100_000 {
        let b = world_bounds(t.0, t.1, t.2, t.3);
        plane_stars(p, b.0, b.1, b.2, b.3)
    } else {
        Seq::<Star>::empty()
    }
}

/// The stateless parallax field generator.
pub struct Parallax {}

impl Parallax {
    pub fn new() -> (p: Parallax) {
        Parallax {}
    }

    /// The 16-byte generator seed of a sector: a pure, stable function
    /// of the plane and the sector's grid coordinates alone, the
    /// 64-bit sector seed's little-endian bytes twice over.
    pub fn rng_seed(&self, plane: u64, kx: i64, ky: i64) -> (r: Vec<u8>)
        ensures
            r@ == seed_bytes(sector_seed(plane, kx, ky)),
            r@.len() == 16,
            forall|j: int| 0 <= j < 8 ==> #[trigger] r@[j] == r@[j + 8],
    {
        let r = seed_bytes_fixed(sector_seed_fixed(plane, kx, ky));
        proof {
            assert forall|j: int| 0 <= j < 8 implies #[trigger] r@[j] == r@[j + 8] by {
                assert(j % 8 == j && (j + 8) % 8 == j) by (nonlinear_arith)
                    requires
                        0 <= j < 8,
                ;
            }
        }
        r
    }

    /// Produce the star field for one frame: for each depth plane,
    /// back to front, the plane's own transform, star radius, and the
    /// deterministic stars of every sector its transform shows.
    pub fn draw(&self, center: Point, zoom: i64, base_transform: Transform2) -> (r: Vec<
        PlaneField,
    >)
        requires
            1000 <= zoom <= 1_000_000_000,
            iabs(center.x as int) <= 1_000_000_000_000,
            iabs(center.y as int) <= 1_000_000_000_000,
            iabs(base_transform.sx as int) <= 100_000_000,
            iabs(base_transform.sy as int) <= 100_000_000,
            iabs(base_transform.tx as int) <= 1_000_000_000_000,
            iabs(base_transform.ty as int) <= 1_000_000_000_000,
        ensures
            r@.len() == PLANES,
            forall|p: int|
                0 <= p < PLANES ==> plane_field_matches(
                    #[trigger] r@[p],
                    base_transform,
                    center,
                    zoom as int,
                    p as u64,
                ),
    {
        let base = base_transform;
        let mut out: Vec<PlaneField> = Vec::new();
        let mut p: u64 = 0;
        while p < PLANES
            invariant
                1000 <= zoom <= 1_000_000_000,
                iabs(center.x as int) <= 1_000_000_000_000,
                iabs(center.y as int) <= 1_000_000_000_000,
                iabs(base.sx as int) <= 100_000_000,
                iabs(base.sy as int) <= 100_000_000,
                iabs(base.tx as int) <= 1_000_000_000_000,
                iabs(base.ty as int) <= 1_000_000_000_000,
                base == base_transform,
                0 <= p <= PLANES,
                out@.len() == p,
                forall|k: int|
                    0 <= k < p ==> plane_field_matches(
                        #[trigger] out@[k],
                        base_transform,
                        center,
                        zoom as int,
                        k as u64,
                    ),
            decreases PLANES - p,
        {
            let zc = zoom_change_for_plane(p);
            proof {
                crate::fixed::lemma_fdiv_shrinks(zoom as int, zc as int);
            }
            let pz = fdiv64(zoom, zc);
            proof {
                let s2x = fmul(base.sx as int, pz as int);
                let s2y = fmul(base.sy as int, pz as int);
                lemma_fmul_mag(base.sx as int, pz as int, 100_000_000, 1_000_000_000);
                lemma_fmul_mag(base.sy as int, pz as int, 100_000_000, 1_000_000_000);
                lemma_fmul_mag(base.sx as int, WINDOW_HALF_W_M as int, 100_000_000, 400_000_000);
                lemma_fmul_mag(base.sy as int, WINDOW_HALF_H_M as int, 100_000_000, 400_000_000);
                lemma_fmul_mag(s2x, -(center.x as int), 100_000_000_000, 1_000_000_000_000);
                lemma_fmul_mag(s2y, -(center.y as int), 100_000_000_000, 1_000_000_000_000);
                assert(compose_fits(base, center, pz as int));
            }
            let t = transform_with_center_and_zoom(base, center, pz);
            proof {
                lemma_fmul_mag(
                    STAR_RADIUS_M as int,
                    zc as int,
                    50_000,
                    2_200_000_000_000_000,
                );
            }
            let r1 = fmul64(STAR_RADIUS_M, zc);
            proof {
                crate::fixed::lemma_fdiv_mag(
                    r1 as int,
                    zoom as int,
                    110_000_000_000_000,
                    1000,
                );
            }
            let r2 = fdiv64(r1, zoom);
            proof {
                lemma_fmul_mag(
                    r2 as int,
                    DEFAULT_ZOOM_M as int,
                    110_000_000_000_000_000,
                    50_000_000,
                );
            }
            let radius = fmul64(r2, DEFAULT_ZOOM_M);
            let scale_ok = (t.sx >= 100_000 || t.sx <= -100_000) && (t.sy >= 100_000 || t.sy
                <= -100_000);
            let stars: Vec<Star> = if scale_ok {
                proof {
                    assert(iabs(t.tx as int) <= 101_000_000_000_000_000int);
                    assert(iabs(t.ty as int) <= 101_000_000_000_000_000int);
                    crate::fixed::lemma_fdiv_mag(
                        (SCALE as int) - t.tx,
                        t.sx as int,
                        101_001_000_000_000_000,
                        100_000,
                    );
                    crate::fixed::lemma_fdiv_mag(
                        -(SCALE as int) - t.tx,
                        t.sx as int,
                        101_001_000_000_000_000,
                        100_000,
                    );
                    crate::fixed::lemma_fdiv_mag(
                        (SCALE as int) - t.ty,
                        t.sy as int,
                        101_001_000_000_000_000,
                        100_000,
                    );
                    crate::fixed::lemma_fdiv_mag(
                        -(SCALE as int) - t.ty,
                        t.sy as int,
                        101_001_000_000_000_000,
                        100_000,
                    );
                    assert(bounds_fit(t));
                }
                let b = world_bounds_for_transform(t);
                draw_parallax_points(p, b.0.x, b.0.y, b.1.x, b.1.y)
            } else {
                Vec::new()
            };
            out.push(PlaneField { transform: t, radius, stars });
            proof {
                assert(plane_field_matches(out@[p as int], base_transform, center, zoom as int, p));
            }
            p = p + 1;
        }
        out
    }
}

} // verus!
