//! The escape-time kernel: the per-pixel computation `z := z^2 + c`,
//! iterated until `|z|^2` exceeds 4, together with the mapping from a pixel
//! index to its complex coordinate and the final color composition.
//!
//! Everything is exact integer arithmetic over the fixed-point plane, so
//! the result is a pure function of the coordinate and the budget.

use vstd::prelude::*;

use crate::fixed::div_floor;
use crate::fixed::SCALE;
use crate::palette::black;
use crate::palette::lerp_color;
use crate::palette::lerp_color_spec;
use crate::palette::palette;
use crate::palette::palette_spec;
use crate::palette::Color;

verus! {

/// Largest coordinate magnitude (in ticks) the kernel accepts.
pub const COORD_LIMIT: i64 = 2_000_000_000;

/// Magnitude bound on the iterated value: once `z` has not escaped, the
/// next value is at most `4 + |c|` units away from the origin per axis.
pub const Z_LIMIT: i64 = COORD_LIMIT + 8 * SCALE;

/// A point of the complex plane, in fixed-point ticks per axis.
#[derive(Clone, Copy, PartialEq, Eq, Structural, Debug)]
pub struct Complex {
    pub re: i64,
    pub im: i64,
}

/// Squared magnitude, in squared ticks.
pub open spec fn norm_sq(re: int, im: int) -> int {
    re * re + im * im
}

/// The escape test `|z|^2 > 4`, at tick scale.
pub open spec fn is_escaped(re: int, im: int) -> bool {
    norm_sq(re, im) > 4 * (SCALE as int) * (SCALE as int)
}

/// Real part of one step `z := z^2 + c`.
pub open spec fn step_re(zre: int, zim: int, cre: int) -> int {
    (zre * zre - zim * zim) / (SCALE as int) + cre
}

/// Imaginary part of one step `z := z^2 + c`.
pub open spec fn step_im(zre: int, zim: int, cim: int) -> int {
    2 * zre * zim / (SCALE as int) + cim
}

/// State of the escape loop started at value `z`, iteration index `i`,
/// with `fuel` tests left: the escape index (0 for a point that never
/// escapes within the budget) and the value of `z` at the deciding test.
pub open spec fn escape_from(
    zre: int,
    zim: int,
    cre: int,
    cim: int,
    i: nat,
    fuel: nat,
) -> (nat, int, int)
    decreases fuel,
{
    if fuel == 0 {
        (0 as nat, zre, zim)
    } else if is_escaped(zre, zim) {
        (i, zre, zim)
    } else {
        escape_from(
            step_re(zre, zim, cre),
            step_im(zre, zim, cim),
            cre,
            cim,
            i + 1,
            (fuel - 1) as nat,
        )
    }
}

/// Escape-time result for the point `c` under iteration budget `n`:
/// iteration starts at `z = c` and index 1.
pub open spec fn escape_spec(cre: int, cim: int, n: nat) -> (nat, int, int) {
    escape_from(cre, cim, cre, cim, 1, n)
}

/// What the escape loop reports for one point: the iteration at which the
/// escape test first succeeded (0 when the budget ran out, marking an
/// interior point) and `z` as it stood at that test.
#[derive(Clone, Copy, PartialEq, Eq, Structural, Debug)]
pub struct EscapeResult {
    pub iter: u32,
    pub z: Complex,
}

/// Runs the escape loop for `c` under `budget` iterations.  The result is
/// pinned to `escape_spec`, a function of `(c, budget)` alone: repeated
/// evaluation on equal inputs yields identical output.
pub fn escape(c: Complex, budget: u32) -> (r: EscapeResult)
    requires
        -COORD_LIMIT <= c.re <= COORD_LIMIT,
        -COORD_LIMIT <= c.im <= COORD_LIMIT,
    ensures
        ({
            let (ei, zre, zim) = escape_spec(c.re as int, c.im as int, budget as nat);
            r.iter as int == ei && r.z.re as int == zre && r.z.im as int == zim
        }),
{
    let mut zre: i64 = c.re;
    let mut zim: i64 = c.im;
    let mut i: u64 = 1;
    while i <= budget as u64
        invariant
            1 <= i <= budget as int + 1,
            -Z_LIMIT <= zre <= Z_LIMIT,
            -Z_LIMIT <= zim <= Z_LIMIT,
            -COORD_LIMIT <= c.re <= COORD_LIMIT,
            -COORD_LIMIT <= c.im <= COORD_LIMIT,
            escape_spec(c.re as int, c.im as int, budget as nat) == escape_from(
                zre as int,
                zim as int,
                c.re as int,
                c.im as int,
                i as nat,
                (budget as int + 1 - i) as nat,
            ),
        decreases budget as int + 1 - i,
    {
        proof {
            assert(Z_LIMIT == 2_008_000_000i64);
            assert(0 <= zre as int * zre as int <= 4_032_064_000_000_000_000 && 0 <= zim as int
                * zim as int <= 4_032_064_000_000_000_000) by (nonlinear_arith)
                requires
                    -2_008_000_000 <= zre as int <= 2_008_000_000,
                    -2_008_000_000 <= zim as int <= 2_008_000_000,
            ;
        }
        let re2: i64 = zre * zre;
        let im2: i64 = zim * zim;
        if re2 + im2 > 4 * SCALE * SCALE {
            return EscapeResult { iter: (i as u32), z: Complex { re: zre, im: zim } };
        }
        proof {
            assert(-2 * SCALE <= zre <= 2 * SCALE && -2 * SCALE <= zim <= 2 * SCALE && -4 * SCALE
                * SCALE <= 2 * (zre as int) * (zim as int) <= 4 * SCALE * SCALE)
                by (nonlinear_arith)
                requires
                    zre as int * zre as int + zim as int * zim as int <= 4 * SCALE as int
                        * SCALE as int,
            ;
        }
        let diff: i64 = re2 - im2;
        let cross: i64 = 2 * zre * zim;
        let dq: i64 = div_floor(diff, SCALE);
        let cq: i64 = div_floor(cross, SCALE);
        proof {
            let s = SCALE as int;
            vstd::arithmetic::div_mod::lemma_div_is_ordered(diff as int, 4 * s * s, s);
            vstd::arithmetic::div_mod::lemma_div_is_ordered(-4 * s * s, diff as int, s);
            vstd::arithmetic::div_mod::lemma_div_is_ordered(cross as int, 4 * s * s, s);
            vstd::arithmetic::div_mod::lemma_div_is_ordered(-4 * s * s, cross as int, s);
            vstd::arithmetic::div_mod::lemma_div_multiples_vanish(4 * s, s);
            vstd::arithmetic::div_mod::lemma_div_multiples_vanish(-4 * s, s);
            assert(s * (4 * s) == 4 * s * s && s * (-4 * s) == -4 * s * s) by (nonlinear_arith);
        }
        let nre: i64 = dq + c.re;
        let nim: i64 = cq + c.im;
        zre = nre;
        zim = nim;
        i = i + 1;
    }
    EscapeResult { iter: 0, z: Complex { re: zre, im: zim } }
}

/// The origin never escapes: `z` stays at zero under every step, so the
/// kernel reports an interior point for any budget.
pub proof fn lemma_origin_interior(n: nat)
    ensures
        escape_spec(0, 0, n) == (0 as nat, 0 as int, 0 as int),
{
    lemma_origin_interior_from(1, n);
}

proof fn lemma_origin_interior_from(i: nat, fuel: nat)
    requires
        1 <= i,
    ensures
        escape_from(0, 0, 0, 0, i, fuel) == (0 as nat, 0 as int, 0 as int),
    decreases fuel,
{
    let s = SCALE as int;
    if fuel == 0 {
    } else {
        assert(!is_escaped(0, 0));
        vstd::arithmetic::div_mod::lemma_div_of0(s);
        assert(step_re(0, 0, 0) == 0);
        assert(step_im(0, 0, 0) == 0);
        lemma_origin_interior_from(i + 1, (fuel - 1) as nat);
    }
}

/// At `c = (2, 0)` the first test sees `|c|^2 == 4`, which is not an
/// escape; one step gives `z = (6, 0)`, which escapes at iteration 2.
pub proof fn lemma_two_escapes_at_iteration_two(n: nat)
    requires
        2 <= n,
    ensures
        escape_spec(2 * SCALE as int, 0, n) == (2 as nat, 6 * SCALE as int, 0 as int),
{
    let s = SCALE as int;
    assert(2 * s * (2 * s) == 4 * s * s && s * (4 * s) == 4 * s * s && 6 * s * (6 * s) == 36 * s
        * s) by (nonlinear_arith);
    assert(norm_sq(2 * s, 0) == 4 * s * s);
    assert(!is_escaped(2 * s, 0));
    vstd::arithmetic::div_mod::lemma_div_multiples_vanish(4 * s, s);
    vstd::arithmetic::div_mod::lemma_div_of0(s);
    assert(step_re(2 * s, 0, 2 * s) == 6 * s);
    assert(step_im(2 * s, 0, 0) == 0);
    assert(is_escaped(6 * s, 0)) by {
        assert(6 * s * (6 * s) == 36 * s * s) by (nonlinear_arith);
    }
    assert(escape_from(2 * s, 0, 2 * s, 0, 1, n) == escape_from(6 * s, 0, 2 * s, 0, 2, (n - 1) as nat));
    assert(escape_from(6 * s, 0, 2 * s, 0, 2, (n - 1) as nat) == (2 as nat, 6 * s, 0 as int));
}

/// Final color of one pixel: interior points are a fixed opaque black;
/// an escaped point blends the palette entries at `level` and `level + 1`
/// by the fraction `frac / 256` of the smoothed iteration count.
pub open spec fn shade_spec(iter: nat, level: int, frac: int) -> Color {
    if iter == 0 {
        black()
    } else {
        lerp_color_spec(palette_spec(level), palette_spec(level + 1), frac)
    }
}

/// Composes the output color from the escape index, the floor `level` of
/// the smoothed iteration count and its fractional part `frac` in 1/256ths.
/// A whole-valued smoothed count (`frac == 0`) lands exactly on the
/// palette entry at `level`: no blending artifact.
pub fn shade(iter: u32, level: u32, frac: u32) -> (c: Color)
    requires
        frac < 256,
        level < 0xffff_ffff,
    ensures
        c == shade_spec(iter as nat, level as int, frac as int),
        iter != 0 && frac == 0 ==> c == palette_spec(level as int),
{
    if iter == 0 {
        Color { r: 0, g: 0, b: 0, a: 255 }
    } else {
        let c0 = palette(level);
        let c1 = palette(level + 1);
        lerp_color(c0, c1, frac)
    }
}

/// The complex coordinate sampled for pixel index `p` on an axis that maps
/// `extent` pixels onto the interval `[lo, hi]`.
pub fn pixel_to_coord(lo: i64, hi: i64, p: u32, extent: u32) -> (x: i64)
    requires
        lo <= hi,
        -0x2000_0000_0000_0000 < lo,
        hi < 0x2000_0000_0000_0000,
        1 <= extent,
        p <= extent,
    ensures
        x as int == lo + (hi - lo) * (p as int) / (extent as int),
        lo <= x <= hi,
{
    let span: u64 = (hi - lo) as u64;
    proof {
        assert(0 <= span as int * p as int && span as int * p as int <= 0xffff_ffff_ffff_ffff
            * 0x1_0000_0000) by (nonlinear_arith)
            requires
                0 <= span as int <= 0xffff_ffff_ffff_ffff,
                0 <= p as int <= 0xffff_ffff,
        ;
    }
    let off: u128 = (span as u128) * (p as u128) / (extent as u128);
    proof {
        assert(span as int * p as int <= span as int * extent as int) by (nonlinear_arith)
            requires
                0 <= span,
                p <= extent,
        ;
        vstd::arithmetic::div_mod::lemma_div_is_ordered(
            span as int * p as int,
            span as int * extent as int,
            extent as int,
        );
        vstd::arithmetic::div_mod::lemma_div_multiples_vanish(span as int, extent as int);
        assert(extent as int * span as int == span as int * extent as int) by (nonlinear_arith);
        vstd::arithmetic::div_mod::lemma_div_pos_is_pos(span as int * p as int, extent as int);
        vstd::arithmetic::mul::lemma_mul_nonnegative(span as int, p as int);
    }
    lo + (off as u64 as i64)
}

} // verus!
