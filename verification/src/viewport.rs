//! The viewport controller: the authoritative center / zoom / iteration
//! state, its reaction to resize and scroll events, and the derived
//! bounding rectangle and uniform snapshot a draw call must see.
//!
//! Zoom steps multiply the zoom by 4/5 (in) or 5/4 (out); the iteration
//! budget follows with 11/10 and 10/11, each rounded to the nearest tick
//! or whole count.  The controller clamps the center, zoom and budget to
//! fixed numeric safety ranges so that every derived quantity stays inside
//! 64-bit arithmetic; the startup values sit far from every clamp.

use vstd::prelude::*;

use crate::fixed::clamp_i64;
use crate::fixed::clamp_spec;
use crate::fixed::round_div;
use crate::fixed::round_div_spec;

verus! {

/// Startup focal point, real axis (fixed-point ticks): -0.7.
pub const START_CENTER_RE: i64 = -700_000;

/// Startup focal point, imaginary axis: 0.
pub const START_CENTER_IM: i64 = 0;

/// Startup zoom radius (half the real-axis span): 1.8.
pub const START_ZOOM: i64 = 1_800_000;

/// Startup escape-time budget.
pub const START_ITERATIONS: i32 = 100;

/// Numeric safety cap on the zoom radius (one million plane units).
pub const ZOOM_MAX: i64 = 1_000_000_000_000;

/// Numeric safety cap on the magnitude of either center coordinate.
pub const CENTER_LIMIT: i64 = 1_000_000_000_000;

/// Cap on the iteration budget.
pub const ITER_MAX: i32 = 1_000_000;

/// Largest accepted device dimension, in pixels.
pub const DIM_MAX: u32 = 65_536;

/// The controller's authoritative state.  `bounds` is not stored: it is
/// derived from these fields on demand, so a draw can never observe a
/// stale rectangle.
#[derive(Clone, Copy, PartialEq, Eq, Structural, Debug)]
pub struct ViewportState {
    pub center_re: i64,
    pub center_im: i64,
    pub zoom: i64,
    pub iterations: i32,
    pub width: u32,
    pub height: u32,
}

/// Well-formedness: zoom positive, budget at least 1, resolution positive,
/// everything inside the numeric safety ranges.
pub open spec fn wf(s: ViewportState) -> bool {
    &&& 1 <= s.zoom <= ZOOM_MAX
    &&& -CENTER_LIMIT <= s.center_re <= CENTER_LIMIT
    &&& -CENTER_LIMIT <= s.center_im <= CENTER_LIMIT
    &&& 1 <= s.iterations <= ITER_MAX
    &&& 1 <= s.width <= DIM_MAX
    &&& 1 <= s.height <= DIM_MAX
}

/// The state produced by startup at the given resolution.
pub open spec fn start_spec(width: u32, height: u32) -> ViewportState {
    ViewportState {
        center_re: START_CENTER_RE,
        center_im: START_CENTER_IM,
        zoom: START_ZOOM,
        iterations: START_ITERATIONS,
        width,
        height,
    }
}

/// Resize transition: degenerate or oversized dimensions leave the state
/// untouched (the event is recovered as a no-op); valid ones replace the
/// resolution and nothing else.
pub open spec fn resize_spec(s: ViewportState, width: u32, height: u32) -> ViewportState {
    if width == 0 || height == 0 || width > DIM_MAX || height > DIM_MAX {
        s
    } else {
        ViewportState { width, height, ..s }
    }
}

/// Pan distance along one axis: the cursor's offset from the viewport
/// center, normalized to [-1, 1], times `zoom * (1 - 4/5)`; truncated
/// toward zero.
pub open spec fn pan_spec(zoom: int, cursor: int, extent: int) -> int {
    let d = 2 * cursor - extent;
    if d >= 0 {
        zoom * d / (5 * extent)
    } else {
        -(zoom * -d / (5 * extent))
    }
}

/// Scroll transition.  A negative wheel delta zooms in: the zoom shrinks
/// to 4/5 and the budget grows by 11/10; otherwise the zoom grows to 5/4
/// and the budget shrinks by 10/11, each rounded to nearest.  The pan,
/// scaled by the pre-update zoom, moves the center toward the cursor on
/// zoom-in and away from it on zoom-out; screen y grows downward while the
/// imaginary axis grows upward, so the vertical term is inverted.
pub open spec fn scroll_spec(
    s: ViewportState,
    delta_y: i64,
    cursor_x: u32,
    cursor_y: u32,
) -> ViewportState {
    let zoom_in = delta_y < 0;
    let px = pan_spec(s.zoom as int, cursor_x as int, s.width as int);
    let py = pan_spec(s.zoom as int, cursor_y as int, s.height as int);
    let cre = if zoom_in {
        s.center_re + px
    } else {
        s.center_re - px
    };
    let cim = if zoom_in {
        s.center_im - py
    } else {
        s.center_im + py
    };
    let z = if zoom_in {
        round_div_spec(4 * s.zoom as int, 5)
    } else {
        round_div_spec(5 * s.zoom as int, 4)
    };
    let it = if zoom_in {
        round_div_spec(11 * s.iterations as int, 10)
    } else {
        round_div_spec(10 * s.iterations as int, 11)
    };
    ViewportState {
        center_re: clamp_spec(cre, -CENTER_LIMIT as int, CENTER_LIMIT as int) as i64,
        center_im: clamp_spec(cim, -CENTER_LIMIT as int, CENTER_LIMIT as int) as i64,
        zoom: clamp_spec(z, 1, ZOOM_MAX as int) as i64,
        iterations: clamp_spec(it, 1, ITER_MAX as int) as i32,
        width: s.width,
        height: s.height,
    }
}

/// Half of the displayed imaginary-axis span: the zoom radius divided by
/// the aspect ratio `width / height`.
pub open spec fn half_im_span_spec(s: ViewportState) -> int {
    s.zoom as int * s.height as int / s.width as int
}

/// The displayed complex-plane rectangle, in fixed-point ticks.
#[derive(Clone, Copy, PartialEq, Eq, Structural, Debug)]
pub struct Bounds {
    pub min_re: i64,
    pub min_im: i64,
    pub max_re: i64,
    pub max_im: i64,
}

/// The values a draw call reads: the rectangle derived from the current
/// state, the resolution and the iteration budget, copied out together.
#[derive(Clone, Copy, PartialEq, Eq, Structural, Debug)]
pub struct UniformSnapshot {
    pub bounds: Bounds,
    pub width: u32,
    pub height: u32,
    pub iterations: i32,
}

/// Round-to-nearest division lies in `[lo, hi]` whenever the scaled
/// endpoints bracket `2a + d`.
proof fn lemma_rdiv_range(a: int, d: int, lo: int, hi: int)
    requires
        1 <= d,
        2 * d * lo <= 2 * a + d,
        2 * a + d < 2 * d * hi + 2 * d,
    ensures
        lo <= round_div_spec(a, d) <= hi,
{
    vstd::arithmetic::div_mod::lemma_fundamental_div_mod(2 * a + d, 2 * d);
    vstd::arithmetic::div_mod::lemma_mod_bound(2 * a + d, 2 * d);
    assert(lo <= (2 * a + d) / (2 * d) <= hi) by (nonlinear_arith)
        requires
            1 <= d,
            2 * d * lo <= 2 * a + d,
            2 * a + d < 2 * d * hi + 2 * d,
            2 * a + d == 2 * d * ((2 * a + d) / (2 * d)) + (2 * a + d) % (2 * d),
            0 <= (2 * a + d) % (2 * d) < 2 * d,
    ;
}

/// Round-to-nearest division takes exactly the value whose scaled
/// neighborhood contains `2a + d`.
proof fn lemma_rdiv_value(a: int, d: int, v: int)
    requires
        1 <= d,
        2 * d * v <= 2 * a + d,
        2 * a + d < 2 * d * v + 2 * d,
    ensures
        round_div_spec(a, d) == v,
{
    let r = 2 * a + d - 2 * d * v;
    assert(2 * a + d == v * (2 * d) + r) by (nonlinear_arith)
        requires
            r == 2 * a + d - 2 * d * v,
    ;
    vstd::arithmetic::div_mod::lemma_fundamental_div_mod_converse(2 * a + d, 2 * d, v, r);
}

/// Pan computation over unsigned magnitudes; the sign is reattached at
/// the end.  The pan never exceeds the zoom radius itself.
fn pan(zoom: i64, cursor: u32, extent: u32) -> (p: i64)
    requires
        1 <= zoom <= ZOOM_MAX,
        1 <= extent <= DIM_MAX,
        cursor <= extent,
    ensures
        p as int == pan_spec(zoom as int, cursor as int, extent as int),
        -zoom <= p <= zoom,
{
    let twoc: u64 = 2 * (cursor as u64);
    let ext: u64 = extent as u64;
    let zm: u64 = zoom as u64;
    if twoc >= ext {
        let dm: u64 = twoc - ext;
        proof {
            assert(0 <= zm as int * dm as int && zm as int * dm as int <= 1_000_000_000_000
                * 65_536 && zm as int * dm as int <= 5 * ext as int * zm as int) by (
            nonlinear_arith)
                requires
                    0 <= zm as int <= 1_000_000_000_000,
                    0 <= dm as int <= ext as int,
                    ext as int <= 65_536,
            ;
        }
        let q: u64 = zm * dm / (5 * ext);
        proof {
            vstd::arithmetic::div_mod::lemma_div_is_ordered(
                zm as int * dm as int,
                5 * ext as int * zm as int,
                5 * ext as int,
            );
            assert(5 * ext as int * zm as int == (5 * ext as int) * (zm as int));
            vstd::arithmetic::div_mod::lemma_div_multiples_vanish(zm as int, 5 * ext as int);
            vstd::arithmetic::div_mod::lemma_div_pos_is_pos(zm as int * dm as int, 5 * ext as int);
        }
        q as i64
    } else {
        let dm: u64 = ext - twoc;
        proof {
            assert(0 <= zm as int * dm as int && zm as int * dm as int <= 1_000_000_000_000
                * 65_536 && zm as int * dm as int <= 5 * ext as int * zm as int) by (
            nonlinear_arith)
                requires
                    0 <= zm as int <= 1_000_000_000_000,
                    0 <= dm as int <= ext as int,
                    ext as int <= 65_536,
            ;
        }
        let q: u64 = zm * dm / (5 * ext);
        proof {
            vstd::arithmetic::div_mod::lemma_div_is_ordered(
                zm as int * dm as int,
                5 * ext as int * zm as int,
                5 * ext as int,
            );
            assert(5 * ext as int * zm as int == (5 * ext as int) * (zm as int));
            vstd::arithmetic::div_mod::lemma_div_multiples_vanish(zm as int, 5 * ext as int);
            vstd::arithmetic::div_mod::lemma_div_pos_is_pos(zm as int * dm as int, 5 * ext as int);
        }
        -(q as i64)
    }
}

impl ViewportState {
    /// Fresh state from the startup constants at the given resolution.
    pub fn new(width: u32, height: u32) -> (s: ViewportState)
        requires
            1 <= width <= DIM_MAX,
            1 <= height <= DIM_MAX,
        ensures
            s == start_spec(width, height),
            wf(s),
    {
        ViewportState {
            center_re: START_CENTER_RE,
            center_im: START_CENTER_IM,
            zoom: START_ZOOM,
            iterations: START_ITERATIONS,
            width,
            height,
        }
    }

    /// Applies a window resize.  A degenerate or oversized resolution is
    /// recovered as a no-op; a valid one reflows the aspect ratio and
    /// leaves the focal point, zoom and budget untouched.
    pub fn on_resize(&mut self, width: u32, height: u32)
        requires
            wf(*old(self)),
        ensures
            *final(self) == resize_spec(*old(self), width, height),
            wf(*final(self)),
    {
        if 1 <= width && width <= DIM_MAX && 1 <= height && height <= DIM_MAX {
            self.width = width;
            self.height = height;
        }
    }

    /// Applies one wheel event at the given cursor position (in the same
    /// pixel coordinate space as the resolution).
    pub fn on_scroll(&mut self, delta_y: i64, cursor_x: u32, cursor_y: u32)
        requires
            wf(*old(self)),
            cursor_x <= old(self).width,
            cursor_y <= old(self).height,
        ensures
            *final(self) == scroll_spec(*old(self), delta_y, cursor_x, cursor_y),
            wf(*final(self)),
    {
        let zoom_in = delta_y < 0;
        let px = pan(self.zoom, cursor_x, self.width);
        let py = pan(self.zoom, cursor_y, self.height);
        let cre = if zoom_in {
            self.center_re + px
        } else {
            self.center_re - px
        };
        let cim = if zoom_in {
            self.center_im - py
        } else {
            self.center_im + py
        };
        self.center_re = clamp_i64(cre, -CENTER_LIMIT, CENTER_LIMIT);
        self.center_im = clamp_i64(cim, -CENTER_LIMIT, CENTER_LIMIT);
        let za: u64 = if zoom_in {
            4 * (self.zoom as u64)
        } else {
            5 * (self.zoom as u64)
        };
        let zd: u64 = if zoom_in {
            5
        } else {
            4
        };
        let zq: u64 = round_div(za, zd);
        proof {
            lemma_rdiv_range(za as int, zd as int, 0, 2_000_000_000_000);
        }
        self.zoom = clamp_i64(zq as i64, 1, ZOOM_MAX);
        let ia: u64 = if zoom_in {
            11 * (self.iterations as u64)
        } else {
            10 * (self.iterations as u64)
        };
        let id: u64 = if zoom_in {
            10
        } else {
            11
        };
        let iq: u64 = round_div(ia, id);
        proof {
            lemma_rdiv_range(ia as int, id as int, 0, 2_000_000);
        }
        self.iterations = clamp_i64(iq as i64, 1, ITER_MAX as i64) as i32;
    }

    /// Runtime check of well-formedness, for callers outside the proof.
    pub fn is_wf(&self) -> (b: bool)
        ensures
            b == wf(*self),
    {
        1 <= self.zoom && self.zoom <= ZOOM_MAX && -CENTER_LIMIT <= self.center_re
            && self.center_re <= CENTER_LIMIT && -CENTER_LIMIT <= self.center_im && self.center_im
            <= CENTER_LIMIT && 1 <= self.iterations && self.iterations <= ITER_MAX && 1
            <= self.width && self.width <= DIM_MAX && 1 <= self.height && self.height <= DIM_MAX
    }

    /// The displayed rectangle, derived from the current center, zoom and
    /// resolution: never stored, never stale.
    pub fn bounds(&self) -> (b: Bounds)
        requires
            wf(*self),
        ensures
            b.min_re as int == self.center_re - self.zoom,
            b.max_re as int == self.center_re + self.zoom,
            b.min_im as int == self.center_im - half_im_span_spec(*self),
            b.max_im as int == self.center_im + half_im_span_spec(*self),
            b.min_re <= b.max_re,
            b.min_im <= b.max_im,
    {
        proof {
            assert(0 <= self.zoom as int * self.height as int && self.zoom as int
                * self.height as int <= 1_000_000_000_000 * 65_536) by (nonlinear_arith)
                requires
                    0 <= self.zoom as int <= 1_000_000_000_000,
                    0 <= self.height as int <= 65_536,
            ;
        }
        let hh_u: u64 = (self.zoom as u64) * (self.height as u64) / (self.width as u64);
        proof {
            vstd::arithmetic::div_mod::lemma_div_is_ordered(
                self.zoom as int * self.height as int,
                1_000_000_000_000int * 65_536,
                self.width as int,
            );
            vstd::arithmetic::div_mod::lemma_div_is_ordered_by_denominator(
                1_000_000_000_000int * 65_536,
                1,
                self.width as int,
            );
            vstd::arithmetic::div_mod::lemma_div_pos_is_pos(
                self.zoom as int * self.height as int,
                self.width as int,
            );
        }
        let hh: i64 = hh_u as i64;
        Bounds {
            min_re: self.center_re - self.zoom,
            min_im: self.center_im - hh,
            max_re: self.center_re + self.zoom,
            max_im: self.center_im + hh,
        }
    }

    /// The uniform values for the next draw call, copied out of the
    /// current state in one step.
    pub fn snapshot(&self) -> (u: UniformSnapshot)
        requires
            wf(*self),
        ensures
            u.bounds.min_re as int == self.center_re - self.zoom,
            u.bounds.max_re as int == self.center_re + self.zoom,
            u.bounds.min_im as int == self.center_im - half_im_span_spec(*self),
            u.bounds.max_im as int == self.center_im + half_im_span_spec(*self),
            u.width == self.width,
            u.height == self.height,
            u.iterations == self.iterations,
    {
        UniformSnapshot {
            bounds: self.bounds(),
            width: self.width,
            height: self.height,
            iterations: self.iterations,
        }
    }
}

/// Resizing, however often, never touches the focal state: center, zoom
/// and budget are those from before, and the resolution reflects the
/// latest valid resize.
pub proof fn lemma_resize_keeps_focus(s: ViewportState, w1: u32, h1: u32, w2: u32, h2: u32)
    ensures
        ({
            let s2 = resize_spec(resize_spec(s, w1, h1), w2, h2);
            &&& s2.center_re == s.center_re
            &&& s2.center_im == s.center_im
            &&& s2.zoom == s.zoom
            &&& s2.iterations == s.iterations
            &&& (1 <= w2 <= DIM_MAX && 1 <= h2 <= DIM_MAX ==> s2.width == w2 && s2.height == h2)
        }),
{
}

/// A degenerate resize is exactly a no-op: the state, and with it every
/// derived bound, is what it was before the event.
pub proof fn lemma_degenerate_resize_is_noop(s: ViewportState, width: u32, height: u32)
    requires
        width == 0 || height == 0,
    ensures
        resize_spec(s, width, height) == s,
{
}

/// With the cursor exactly at the viewport center, a zoom-in pans nothing:
/// the center is unchanged and the zoom becomes 4/5 of the old value,
/// rounded to the nearest tick — exactly 4/5 whenever the old zoom is a
/// multiple of 5 ticks.
pub proof fn lemma_zoom_anchor_at_center(
    s: ViewportState,
    delta_y: i64,
    cursor_x: u32,
    cursor_y: u32,
)
    requires
        wf(s),
        delta_y < 0,
        2 * cursor_x == s.width,
        2 * cursor_y == s.height,
    ensures
        ({
            let s1 = scroll_spec(s, delta_y, cursor_x, cursor_y);
            &&& s1.center_re == s.center_re
            &&& s1.center_im == s.center_im
            &&& s1.zoom as int == round_div_spec(4 * s.zoom as int, 5)
            &&& (s.zoom % 5 == 0 ==> 5 * s1.zoom == 4 * s.zoom)
            &&& s1.width == s.width
            &&& s1.height == s.height
        }),
{
    let w = s.width as int;
    let h = s.height as int;
    let z = s.zoom as int;
    vstd::arithmetic::div_mod::lemma_div_of0(5 * w);
    vstd::arithmetic::div_mod::lemma_div_of0(5 * h);
    assert(pan_spec(z, cursor_x as int, w) == 0);
    assert(pan_spec(z, cursor_y as int, h) == 0);
    lemma_rdiv_range(4 * z, 5, 1, ZOOM_MAX as int);
    if s.zoom % 5 == 0 {
        let k = z / 5;
        vstd::arithmetic::div_mod::lemma_fundamental_div_mod(z, 5);
        lemma_rdiv_value(4 * z, 5, 4 * k);
    }
}

/// A zoom-in followed by a zoom-out at one cursor position restores the
/// iteration budget exactly, and the zoom radius to within one tick —
/// exactly, whenever the zoom is a multiple of 5 ticks; the resolution
/// never changes.  (The center is not restored in general: the outward
/// pan is scaled by the smaller post-step zoom.)
pub proof fn lemma_zoom_round_trip(s: ViewportState, cursor_x: u32, cursor_y: u32)
    requires
        wf(s),
        s.zoom <= 500_000_000_000,
        s.iterations <= 500_000,
    ensures
        ({
            let s2 = scroll_spec(scroll_spec(s, -1i64, cursor_x, cursor_y), 1i64, cursor_x, cursor_y);
            &&& s2.iterations == s.iterations
            &&& s.zoom <= s2.zoom <= s.zoom + 1
            &&& (s.zoom % 5 == 0 ==> s2.zoom == s.zoom)
            &&& s2.width == s.width
            &&& s2.height == s.height
        }),
{
    let z = s.zoom as int;
    let i = s.iterations as int;
    let s1 = scroll_spec(s, -1i64, cursor_x, cursor_y);
    lemma_rdiv_range(4 * z, 5, 1, ZOOM_MAX as int);
    lemma_rdiv_range(11 * i, 10, 1, ITER_MAX as int);
    let z1 = round_div_spec(4 * z, 5);
    let i1 = round_div_spec(11 * i, 10);
    assert(s1.zoom as int == z1);
    assert(s1.iterations as int == i1);
    vstd::arithmetic::div_mod::lemma_fundamental_div_mod(8 * z + 5, 10);
    vstd::arithmetic::div_mod::lemma_mod_bound(8 * z + 5, 10);
    assert(8 * z - 4 <= 10 * z1 <= 8 * z + 5);
    lemma_rdiv_range(5 * z1, 4, z, z + 1);
    vstd::arithmetic::div_mod::lemma_fundamental_div_mod(22 * i + 10, 20);
    vstd::arithmetic::div_mod::lemma_mod_bound(22 * i + 10, 20);
    assert(22 * i - 9 <= 20 * i1 <= 22 * i + 10);
    lemma_rdiv_value(10 * i1, 11, i);
    if s.zoom % 5 == 0 {
        let k = z / 5;
        vstd::arithmetic::div_mod::lemma_fundamental_div_mod(z, 5);
        lemma_rdiv_value(4 * z, 5, 4 * k);
        lemma_rdiv_value(5 * z1, 4, 5 * k);
    }
}

/// Zoom-in never lowers the iteration budget, and raises it strictly once
/// the budget is at least 5 and below its cap; zoom-out never raises it,
/// never drops it below 1, and lowers it strictly from 6 on.  Below those
/// thresholds rounding to the nearest whole count saturates the step.
pub proof fn lemma_iteration_budget_monotonic(
    s: ViewportState,
    delta_y: i64,
    cursor_x: u32,
    cursor_y: u32,
)
    requires
        wf(s),
    ensures
        ({
            let s1 = scroll_spec(s, delta_y, cursor_x, cursor_y);
            &&& delta_y < 0 ==> s.iterations <= s1.iterations
            &&& (delta_y < 0 && 5 <= s.iterations && s.iterations < ITER_MAX) ==> s.iterations
                < s1.iterations
            &&& delta_y >= 0 ==> 1 <= s1.iterations <= s.iterations
            &&& (delta_y >= 0 && 6 <= s.iterations) ==> s1.iterations < s.iterations
        }),
{
    let i = s.iterations as int;
    if delta_y < 0 {
        let q = round_div_spec(11 * i, 10);
        vstd::arithmetic::div_mod::lemma_fundamental_div_mod(22 * i + 10, 20);
        vstd::arithmetic::div_mod::lemma_mod_bound(22 * i + 10, 20);
        assert(22 * i - 9 <= 20 * q <= 22 * i + 10);
        assert(i <= q);
        if 5 <= i {
            assert(i + 1 <= q);
        }
    } else {
        let q = round_div_spec(10 * i, 11);
        vstd::arithmetic::div_mod::lemma_fundamental_div_mod(20 * i + 11, 22);
        vstd::arithmetic::div_mod::lemma_mod_bound(20 * i + 11, 22);
        assert(20 * i - 10 <= 22 * q <= 20 * i + 11);
        assert(q <= i);
        if 6 <= i {
            assert(q <= i - 1);
        }
    }
}

} // verus!
