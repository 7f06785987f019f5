use mandelzoom::viewport::ViewportState;

#[test]
fn startup_uses_the_fixed_constants() {
    let v = ViewportState::new(800, 600);
    assert_eq!(v.center_re, -700_000);
    assert_eq!(v.center_im, 0);
    assert_eq!(v.zoom, 1_800_000);
    assert_eq!(v.iterations, 100);
    assert_eq!(v.width, 800);
    assert_eq!(v.height, 600);
    assert!(v.is_wf());
}

#[test]
fn startup_bounds_follow_center_zoom_and_aspect() {
    let v = ViewportState::new(800, 600);
    let b = v.bounds();
    assert_eq!(b.min_re, -2_500_000);
    assert_eq!(b.max_re, 1_100_000);
    // half imaginary span: zoom / (800 / 600) = 1.8 * 600 / 800 = 1.35
    assert_eq!(b.min_im, -1_350_000);
    assert_eq!(b.max_im, 1_350_000);
}

#[test]
fn resize_keeps_center_zoom_and_budget() {
    let mut v = ViewportState::new(800, 600);
    v.on_resize(1024, 768);
    v.on_resize(333, 777);
    assert_eq!(v.center_re, -700_000);
    assert_eq!(v.center_im, 0);
    assert_eq!(v.zoom, 1_800_000);
    assert_eq!(v.iterations, 100);
    assert_eq!(v.width, 333);
    assert_eq!(v.height, 777);
}

#[test]
fn degenerate_resize_is_a_recovered_no_op() {
    let mut v = ViewportState::new(800, 600);
    let before = v;
    v.on_resize(0, 500);
    assert_eq!(v, before);
    v.on_resize(500, 0);
    assert_eq!(v, before);
    // A later valid event still works.
    v.on_resize(1920, 1080);
    assert_eq!(v.width, 1920);
    assert_eq!(v.height, 1080);
    assert_eq!(v.zoom, 1_800_000);
}

#[test]
fn scroll_at_viewport_center_zooms_without_panning() {
    let mut v = ViewportState::new(800, 600);
    v.on_scroll(-1, 400, 300);
    assert_eq!(v.center_re, -700_000);
    assert_eq!(v.center_im, 0);
    // zoom * 0.8 exactly
    assert_eq!(v.zoom, 1_440_000);
    // iterations * 1.1 rounded to nearest
    assert_eq!(v.iterations, 110);
    assert_eq!(v.width, 800);
    assert_eq!(v.height, 600);
}

#[test]
fn zoom_in_then_out_restores_zoom_and_budget() {
    let mut v = ViewportState::new(800, 600);
    v.on_scroll(-1, 400, 300);
    v.on_scroll(1, 400, 300);
    assert_eq!(v.zoom, 1_800_000);
    assert_eq!(v.iterations, 100);
    assert_eq!(v.center_re, -700_000);
    assert_eq!(v.center_im, 0);
}

#[test]
fn zoom_in_pans_toward_the_cursor() {
    let mut v = ViewportState::new(800, 600);
    // Cursor at the right edge, vertically centered: the center moves
    // right by zoom * (1 - 0.8) = 0.36, the imaginary part stays.
    v.on_scroll(-1, 800, 300);
    assert_eq!(v.center_re, -700_000 + 360_000);
    assert_eq!(v.center_im, 0);
    assert_eq!(v.zoom, 1_440_000);
    assert_eq!(v.iterations, 110);
}

#[test]
fn zoom_out_pans_away_from_the_cursor_and_inverts_screen_y() {
    let mut v = ViewportState::new(800, 600);
    // Cursor at the top-left corner: on zoom-out the center moves toward
    // the opposite corner; screen y points down, the imaginary axis up.
    v.on_scroll(1, 0, 0);
    assert_eq!(v.center_re, -700_000 + 360_000);
    assert_eq!(v.center_im, -360_000);
    // zoom * 1.25 exactly
    assert_eq!(v.zoom, 2_250_000);
    // iterations / 1.1 = 90.9..., rounded to nearest
    assert_eq!(v.iterations, 91);
}

#[test]
fn budget_saturates_at_small_values() {
    let mut v = ViewportState {
        center_re: 0,
        center_im: 0,
        zoom: 1_000_000,
        iterations: 1,
        width: 100,
        height: 100,
    };
    // round(1 * 1.1) == 1: rounding stalls the first steps up.
    v.on_scroll(-1, 50, 50);
    assert_eq!(v.iterations, 1);
    // round(1 / 1.1) == 1 as well: the budget never drops below 1.
    v.on_scroll(1, 50, 50);
    assert_eq!(v.iterations, 1);
}

#[test]
fn budget_moves_strictly_away_from_the_thresholds() {
    let mut v = ViewportState {
        center_re: 0,
        center_im: 0,
        zoom: 1_000_000,
        iterations: 5,
        width: 100,
        height: 100,
    };
    v.on_scroll(-1, 50, 50);
    assert_eq!(v.iterations, 6);
    v.on_scroll(1, 50, 50);
    assert_eq!(v.iterations, 5);
    v.on_scroll(1, 50, 50);
    // round(5 / 1.1) = round(4.54...) = 5: saturated again.
    assert_eq!(v.iterations, 5);
}

#[test]
fn repeated_zoom_in_raises_budget_and_shrinks_zoom() {
    let mut v = ViewportState::new(640, 480);
    let mut last_zoom = v.zoom;
    let mut last_iter = v.iterations;
    for _ in 0..10 {
        v.on_scroll(-1, 320, 240);
        assert!(v.zoom < last_zoom);
        assert!(v.iterations > last_iter);
        assert!(v.is_wf());
        last_zoom = v.zoom;
        last_iter = v.iterations;
    }
}

#[test]
fn snapshot_copies_the_current_state() {
    let mut v = ViewportState::new(800, 600);
    v.on_scroll(-1, 400, 300);
    let u = v.snapshot();
    let b = v.bounds();
    assert_eq!(u.bounds, b);
    assert_eq!(u.width, 800);
    assert_eq!(u.height, 600);
    assert_eq!(u.iterations, 110);
    assert_eq!(b.min_re, v.center_re - v.zoom);
    assert_eq!(b.max_re, v.center_re + v.zoom);
}
