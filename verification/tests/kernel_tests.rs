use mandelzoom::fixed::clamp_i64;
use mandelzoom::fixed::div_floor;
use mandelzoom::fixed::round_div;
use mandelzoom::fixed::SCALE;
use mandelzoom::kernel::escape;
use mandelzoom::kernel::pixel_to_coord;
use mandelzoom::kernel::shade;
use mandelzoom::kernel::Complex;
use mandelzoom::palette::lerp_color;
use mandelzoom::palette::palette;
use mandelzoom::palette::Color;

#[test]
fn div_floor_rounds_toward_negative_infinity() {
    assert_eq!(div_floor(7, 2), 3);
    assert_eq!(div_floor(-7, 2), -4);
    assert_eq!(div_floor(-8, 2), -4);
    assert_eq!(div_floor(0, 5), 0);
}

#[test]
fn round_div_rounds_to_nearest_with_ties_up() {
    assert_eq!(round_div(5, 2), 3);
    assert_eq!(round_div(7, 2), 4);
    assert_eq!(round_div(10, 4), 3);
    assert_eq!(round_div(9, 4), 2);
    assert_eq!(round_div(0, 3), 0);
}

#[test]
fn clamp_forces_into_interval() {
    assert_eq!(clamp_i64(5, 1, 10), 5);
    assert_eq!(clamp_i64(-3, 1, 10), 1);
    assert_eq!(clamp_i64(42, 1, 10), 10);
}

#[test]
fn origin_never_escapes() {
    let c = Complex { re: 0, im: 0 };
    let r = escape(c, 1);
    assert_eq!(r.iter, 0);
    let r = escape(c, 100);
    assert_eq!(r.iter, 0);
    assert_eq!(r.z, Complex { re: 0, im: 0 });
}

#[test]
fn two_escapes_at_iteration_two() {
    let c = Complex { re: 2 * SCALE, im: 0 };
    let r = escape(c, 100);
    assert_eq!(r.iter, 2);
    assert_eq!(r.z, Complex { re: 6 * SCALE, im: 0 });
    // The color of this escaped point differs from interior black.
    let escaped_color = shade(r.iter, 2, 0);
    let interior = shade(0, 0, 0);
    assert_eq!(interior, Color { r: 0, g: 0, b: 0, a: 255 });
    assert_ne!(escaped_color, interior);
}

#[test]
fn escape_is_deterministic() {
    let c = Complex { re: 310_000, im: -510_000 };
    let first = escape(c, 250);
    let second = escape(c, 250);
    assert_eq!(first, second);
}

#[test]
fn known_interior_point_stays_black() {
    // The startup focal point -0.7 + 0i lies inside the set.
    let c = Complex { re: -700_000, im: 0 };
    let r = escape(c, 200);
    assert_eq!(r.iter, 0);
    assert_eq!(shade(r.iter, 0, 0), Color { r: 0, g: 0, b: 0, a: 255 });
}

#[test]
fn far_exterior_point_escapes_immediately() {
    // |c|^2 = 4 + 4 > 4 already at the first test.
    let c = Complex { re: 2 * SCALE, im: 2 * SCALE };
    let r = escape(c, 50);
    assert_eq!(r.iter, 1);
    assert_eq!(r.z, c);
}

#[test]
fn palette_cycles_with_period_sixteen() {
    for i in 0..16u32 {
        assert_eq!(palette(i), palette(i + 16));
        assert_eq!(palette(i), palette(i + 32));
    }
    assert_eq!(palette(3), Color { r: 4, g: 4, b: 73, a: 255 });
}

#[test]
fn integer_smoothed_count_blends_nothing() {
    // With a zero fractional part the shade is exactly the palette entry.
    for level in 0..20u32 {
        assert_eq!(shade(7, level, 0), palette(level));
    }
}

#[test]
fn halfway_blend_truncates_toward_zero() {
    // Halfway between entries 0 (66, 30, 15) and 1 (25, 7, 26).
    let c = shade(1, 0, 128);
    assert_eq!(c, Color { r: 46, g: 19, b: 20, a: 255 });
    let direct = lerp_color(palette(0), palette(1), 128);
    assert_eq!(c, direct);
}

#[test]
fn full_blend_reaches_second_entry() {
    let c = lerp_color(palette(4), palette(5), 256);
    assert_eq!(c, palette(5));
}

#[test]
fn pixel_maps_linearly_onto_axis() {
    let lo = -2 * SCALE;
    let hi = 2 * SCALE;
    assert_eq!(pixel_to_coord(lo, hi, 0, 4), lo);
    assert_eq!(pixel_to_coord(lo, hi, 1, 4), -SCALE);
    assert_eq!(pixel_to_coord(lo, hi, 2, 4), 0);
    assert_eq!(pixel_to_coord(lo, hi, 4, 4), hi);
}
