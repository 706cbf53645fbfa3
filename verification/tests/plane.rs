use mandelbrot::complex_plane::ComplexPlane;

#[test]
fn default_framing_is_well_formed() {
    let p = ComplexPlane::default();
    assert_eq!(p.min_re, -33554432);
    assert_eq!(p.max_re, 13421773);
    assert_eq!(p.min_im, -20132659);
    assert_eq!(p.max_im, 20132659);
    assert_eq!(p.width, 1000);
    assert_eq!(p.height, 1000);
    assert_eq!(p.pixel_size(), 46976);
}

#[test]
fn fit_to_screen_matches_both_dimensions() {
    let p = ComplexPlane::default();
    assert!(p.can_fit_to_screen(1280, 800));
    let (q, ps) = p.fit_to_screen(1280, 800);
    assert_eq!(ps, 50331);
    assert_eq!(q.max_re - q.min_re, 1280 * ps);
    assert_eq!(q.max_im - q.min_im, 800 * ps);
    assert_eq!(q.pixel_size(), ps);
    assert_eq!(q.min_re, -42278169);
    assert_eq!(q.max_re, 22145511);
    assert_eq!(q.min_im, -20132400);
    assert_eq!(q.max_im, 20132400);
}

#[test]
fn zoom_one_is_idempotent() {
    let p = ComplexPlane::default();
    assert!(p.can_zoom(1, 1));
    let once = p.zoom(1, 1);
    assert!(once.can_zoom(1, 1));
    let twice = once.zoom(1, 1);
    assert_eq!(once, twice);
}

#[test]
fn zoom_half_then_double_round_trips() {
    // a normalized plane (spans exactly dimension * pixel size) whose pixel
    // size is a multiple of four, so both zooms divide exactly
    let p = ComplexPlane {
        min_re: -20000,
        max_re: 20000,
        min_im: -16000,
        max_im: 16000,
        width: 100,
        height: 80,
    };
    assert_eq!(p.pixel_size(), 400);
    assert!(p.can_zoom(1, 2));
    let zoomed_in = p.zoom(1, 2);
    assert_eq!(zoomed_in.min_re, -10000);
    assert_eq!(zoomed_in.max_re, 10000);
    assert_eq!(zoomed_in.min_im, -8000);
    assert_eq!(zoomed_in.max_im, 8000);
    assert!(zoomed_in.can_zoom(2, 1));
    let back = zoomed_in.zoom(2, 1);
    assert_eq!(back, p);
}

#[test]
fn zoom_out_doubles_pixel_size() {
    let p = ComplexPlane::default();
    let (fitted, ps) = p.fit_to_screen(1000, 1000);
    let out = fitted.zoom(2, 1);
    assert_eq!(out.pixel_size(), 2 * ps);
}

#[test]
fn move_left_is_reversible() {
    let p = ComplexPlane::default();
    assert!(p.can_move_left(10));
    let moved = p.move_left(10);
    assert!(moved.can_move_left(-10));
    let back = moved.move_left(-10);
    assert_eq!(back, p);
}

#[test]
fn move_down_is_reversible() {
    let p = ComplexPlane::default();
    assert!(p.can_move_down(10));
    let moved = p.move_down(10);
    let back = moved.move_down(-10);
    assert_eq!(back, p);
}

#[test]
fn move_left_shifts_by_pixel_widths() {
    // positive pixel counts translate both real corners downward; the
    // imaginary corners and the pixel size stay untouched
    let p = ComplexPlane::default();
    let moved = p.move_left(10);
    assert_eq!(moved.min_re, -34024192);
    assert_eq!(moved.max_re, 12952013);
    assert_eq!(moved.min_im, p.min_im);
    assert_eq!(moved.max_im, p.max_im);
    assert_eq!(moved.pixel_size(), p.pixel_size());
}

#[test]
fn can_move_rejects_out_of_range_panning() {
    let p = ComplexPlane::default();
    assert!(!p.can_move_left(i64::MAX));
    assert!(!p.can_move_down(i64::MIN));
}

#[test]
fn can_zoom_rejects_degenerate_factors() {
    let p = ComplexPlane::default();
    assert!(!p.can_zoom(0, 1));
    assert!(!p.can_zoom(1, 0));
    assert!(!p.can_zoom(1000000, 1));
}
