//! The fixed cyclic 16-entry color table and the linear interpolation used
//! for smoothed escape-time coloring.

use vstd::prelude::*;

verus! {

/// An opaque RGBA color; channels range over 0..=255.
#[derive(Clone, Copy, PartialEq, Eq, Structural, Debug)]
pub struct Color {
    pub r: u8,
    pub g: u8,
    pub b: u8,
    pub a: u8,
}

/// The distinguished color of interior points; not part of the palette.
pub open spec fn black() -> Color {
    Color { r: 0, g: 0, b: 0, a: 255 }
}

/// The fixed palette, read cyclically: entry `n` is the table row `n mod 16`.
pub open spec fn palette_spec(n: int) -> Color {
    let k = n % 16;
    if k == 0 {
        Color { r: 66, g: 30, b: 15, a: 255 }
    } else if k == 1 {
        Color { r: 25, g: 7, b: 26, a: 255 }
    } else if k == 2 {
        Color { r: 9, g: 1, b: 47, a: 255 }
    } else if k == 3 {
        Color { r: 4, g: 4, b: 73, a: 255 }
    } else if k == 4 {
        Color { r: 0, g: 7, b: 100, a: 255 }
    } else if k == 5 {
        Color { r: 12, g: 44, b: 138, a: 255 }
    } else if k == 6 {
        Color { r: 24, g: 82, b: 177, a: 255 }
    } else if k == 7 {
        Color { r: 57, g: 125, b: 209, a: 255 }
    } else if k == 8 {
        Color { r: 134, g: 181, b: 229, a: 255 }
    } else if k == 9 {
        Color { r: 211, g: 236, b: 248, a: 255 }
    } else if k == 10 {
        Color { r: 241, g: 233, b: 191, a: 255 }
    } else if k == 11 {
        Color { r: 248, g: 201, b: 95, a: 255 }
    } else if k == 12 {
        Color { r: 255, g: 170, b: 0, a: 255 }
    } else if k == 13 {
        Color { r: 204, g: 128, b: 0, a: 255 }
    } else if k == 14 {
        Color { r: 153, g: 87, b: 0, a: 255 }
    } else {
        Color { r: 106, g: 52, b: 3, a: 255 }
    }
}

/// Palette lookup at index `i`, reduced modulo the table length.
pub fn palette(i: u32) -> (c: Color)
    ensures
        c == palette_spec(i as int),
{
    let k: u32 = i % 16;
    if k == 0 {
        Color { r: 66, g: 30, b: 15, a: 255 }
    } else if k == 1 {
        Color { r: 25, g: 7, b: 26, a: 255 }
    } else if k == 2 {
        Color { r: 9, g: 1, b: 47, a: 255 }
    } else if k == 3 {
        Color { r: 4, g: 4, b: 73, a: 255 }
    } else if k == 4 {
        Color { r: 0, g: 7, b: 100, a: 255 }
    } else if k == 5 {
        Color { r: 12, g: 44, b: 138, a: 255 }
    } else if k == 6 {
        Color { r: 24, g: 82, b: 177, a: 255 }
    } else if k == 7 {
        Color { r: 57, g: 125, b: 209, a: 255 }
    } else if k == 8 {
        Color { r: 134, g: 181, b: 229, a: 255 }
    } else if k == 9 {
        Color { r: 211, g: 236, b: 248, a: 255 }
    } else if k == 10 {
        Color { r: 241, g: 233, b: 191, a: 255 }
    } else if k == 11 {
        Color { r: 248, g: 201, b: 95, a: 255 }
    } else if k == 12 {
        Color { r: 255, g: 170, b: 0, a: 255 }
    } else if k == 13 {
        Color { r: 204, g: 128, b: 0, a: 255 }
    } else if k == 14 {
        Color { r: 153, g: 87, b: 0, a: 255 }
    } else {
        Color { r: 106, g: 52, b: 3, a: 255 }
    }
}

/// The palette is cyclic with period 16: indices `n` and `n + 16` always
/// name the same color.
pub proof fn lemma_palette_cycles(n: int)
    ensures
        palette_spec(n + 16) == palette_spec(n),
{
    vstd::arithmetic::div_mod::lemma_mod_add_multiples_vanish(n, 16);
}

/// One channel moved from `c0` toward `c1` by the fraction `t / 256`,
/// truncated toward zero.
pub open spec fn lerp_channel_spec(c0: int, c1: int, t: int) -> int {
    if c1 >= c0 {
        c0 + (c1 - c0) * t / 256
    } else {
        c0 - (c0 - c1) * t / 256
    }
}

/// All four channels interpolated from `c0` toward `c1` by `t / 256`.
pub open spec fn lerp_color_spec(c0: Color, c1: Color, t: int) -> Color {
    Color {
        r: lerp_channel_spec(c0.r as int, c1.r as int, t) as u8,
        g: lerp_channel_spec(c0.g as int, c1.g as int, t) as u8,
        b: lerp_channel_spec(c0.b as int, c1.b as int, t) as u8,
        a: lerp_channel_spec(c0.a as int, c1.a as int, t) as u8,
    }
}

/// An interpolated channel never leaves the interval spanned by its two
/// endpoints, so it always fits a channel again.
pub proof fn lemma_lerp_channel_in_range(c0: int, c1: int, t: int)
    requires
        0 <= c0 <= 255,
        0 <= c1 <= 255,
        0 <= t <= 256,
    ensures
        0 <= lerp_channel_spec(c0, c1, t) <= 255,
        t == 0 ==> lerp_channel_spec(c0, c1, t) == c0,
{
    if c1 >= c0 {
        let d = c1 - c0;
        assert(d * t <= d * 256) by (nonlinear_arith)
            requires
                0 <= d,
                t <= 256,
        ;
        vstd::arithmetic::div_mod::lemma_div_is_ordered(d * t, d * 256, 256);
        vstd::arithmetic::div_mod::lemma_div_multiples_vanish(d, 256);
        vstd::arithmetic::div_mod::lemma_div_pos_is_pos(d * t, 256);
        vstd::arithmetic::mul::lemma_mul_nonnegative(d, t);
    } else {
        let d = c0 - c1;
        assert(d * t <= d * 256) by (nonlinear_arith)
            requires
                0 <= d,
                t <= 256,
        ;
        vstd::arithmetic::div_mod::lemma_div_is_ordered(d * t, d * 256, 256);
        vstd::arithmetic::div_mod::lemma_div_multiples_vanish(d, 256);
        vstd::arithmetic::div_mod::lemma_div_pos_is_pos(d * t, 256);
        vstd::arithmetic::mul::lemma_mul_nonnegative(d, t);
    }
}

fn lerp_channel(c0: u8, c1: u8, t: u32) -> (r: u8)
    requires
        t <= 256,
    ensures
        r as int == lerp_channel_spec(c0 as int, c1 as int, t as int),
{
    proof {
        lemma_lerp_channel_in_range(c0 as int, c1 as int, t as int);
    }
    if c1 >= c0 {
        let d: u32 = (c1 - c0) as u32;
        let q: u32 = d * t / 256;
        proof {
            assert(d as int * t as int <= d as int * 256) by (nonlinear_arith)
                requires
                    0 <= d,
                    t <= 256,
            ;
            vstd::arithmetic::div_mod::lemma_div_is_ordered(
                d as int * t as int,
                d as int * 256,
                256,
            );
            vstd::arithmetic::div_mod::lemma_div_multiples_vanish(d as int, 256);
        }
        c0 + (q as u8)
    } else {
        let d: u32 = (c0 - c1) as u32;
        let q: u32 = d * t / 256;
        proof {
            assert(d as int * t as int <= d as int * 256) by (nonlinear_arith)
                requires
                    0 <= d,
                    t <= 256,
            ;
            vstd::arithmetic::div_mod::lemma_div_is_ordered(
                d as int * t as int,
                d as int * 256,
                256,
            );
            vstd::arithmetic::div_mod::lemma_div_multiples_vanish(d as int, 256);
        }
        c0 - (q as u8)
    }
}

/// All four channels interpolated from `c0` toward `c1` by `t / 256`.
/// At `t == 0` the result is exactly `c0`: an integer smoothed iteration
/// count blends nothing in.
pub fn lerp_color(c0: Color, c1: Color, t: u32) -> (c: Color)
    requires
        t <= 256,
    ensures
        c == lerp_color_spec(c0, c1, t as int),
        t == 0 ==> c == c0,
{
    proof {
        lemma_lerp_channel_in_range(c0.r as int, c1.r as int, t as int);
        lemma_lerp_channel_in_range(c0.g as int, c1.g as int, t as int);
        lemma_lerp_channel_in_range(c0.b as int, c1.b as int, t as int);
        lemma_lerp_channel_in_range(c0.a as int, c1.a as int, t as int);
    }
    Color {
        r: lerp_channel(c0.r, c1.r, t),
        g: lerp_channel(c0.g, c1.g, t),
        b: lerp_channel(c0.b, c1.b, t),
        a: lerp_channel(c0.a, c1.a, t),
    }
}

} // verus!
