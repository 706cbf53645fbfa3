use mandelbrot::SCALE;
use mandelbrot::cell::Cell;
use mandelbrot::cell::CellState;
use mandelbrot::color::color_for;
use mandelbrot::complex_plane::ComplexPlane;
use mandelbrot::grid::Fractal;

#[test]
fn reseed_classifies_cardioid_center_without_budget() {
    // c = 0 + 0i lies inside the main cardioid: proven a member at seeding
    // time, with no iteration consumed
    let f = Fractal::new(1, 1, 1000, 0, 0);
    assert_eq!(f.grid.len(), 1);
    let cell = f.grid[0];
    assert_eq!(cell.c_re, 0);
    assert_eq!(cell.c_im, 0);
    assert!(cell.state == CellState::InSet);
    assert_eq!(cell.iter_count, 0);
}

#[test]
fn cardioid_test_rejects_point_right_of_cusp() {
    // c = 0.3 + 0i lies just outside the cardioid cusp at 0.25
    let mut cell = Cell::new(3 * SCALE / 10, 0, 0);
    cell.check_for_main_cardioid();
    assert!(cell.state == CellState::Unknown);
}

#[test]
fn cardioid_test_accepts_point_left_of_center() {
    // c = -0.5 + 0i lies well inside the cardioid
    let mut cell = Cell::new(-SCALE / 2, 0, 0);
    cell.check_for_main_cardioid();
    assert!(cell.state == CellState::InSet);
}

#[test]
fn far_outside_escapes_in_first_iteration() {
    // c = 2 + 2i has |c|^2 = 8 > 4: one iteration resolves it, and exactly
    // one unit of budget is recorded
    let mut cell = Cell::new(2 * SCALE, 2 * SCALE, 0);
    cell.update(5);
    assert!(cell.state == CellState::OutOfSet);
    assert_eq!(cell.iter_count, 1);
}

#[test]
fn step_with_unit_budget_colors_escaped_cell() {
    let mut f = Fractal::new(1, 1, 1000, 2 * SCALE, 2 * SCALE);
    let mut screen = vec![9u8; 4];
    f.step(&mut screen, 1);
    assert!(f.grid.is_empty());
    assert_eq!(screen[0], 115);
    assert_eq!(screen[1], 102);
    assert_eq!(screen[2], 255);
    // the alpha byte belongs to the collaborator and is never written
    assert_eq!(screen[3], 9);
}

#[test]
fn step_drops_proven_members_as_black() {
    let mut f = Fractal::new(1, 1, 1000, 0, 0);
    let mut screen = vec![9u8; 4];
    f.step(&mut screen, 10);
    assert!(f.grid.is_empty());
    assert_eq!(&screen[0..3], &[0, 0, 0]);
    assert_eq!(screen[3], 9);
}

#[test]
fn color_determinism_across_cells() {
    // two different cells with the same escape count get identical bytes
    let mut f = Fractal::new(2, 1, 1000, 2 * SCALE, 2 * SCALE);
    let mut screen = vec![9u8; 8];
    f.step(&mut screen, 1);
    assert!(f.grid.is_empty());
    assert_eq!(&screen[0..3], &screen[4..7]);
}

#[test]
fn color_for_exact_values() {
    assert_eq!(color_for(0), (178, 102, 255));
    assert_eq!(color_for(1), (115, 102, 255));
    assert_eq!(color_for(17), (153, 255, 102));
    assert_eq!(color_for(17), color_for(17));
}

#[test]
fn reseed_from_fitted_plane_seeds_row_major_grid() {
    let p = ComplexPlane::default();
    let (fitted, ps) = p.fit_to_screen(4, 4);
    assert_eq!(ps, 11744051);
    let f = Fractal::reseed(&fitted);
    assert_eq!(f.grid.len(), 16);
    // pixel (2, 2) sits at the view center, inside the cardioid
    assert_eq!(f.grid[10].c_re, -10066329);
    assert_eq!(f.grid[10].c_im, 0);
    assert!(f.grid[10].state == CellState::InSet);
    assert!(f.grid[11].state == CellState::InSet);
    // the top-left pixel is near -2 - 1.4i, not provably interior
    assert_eq!(f.grid[0].c_re, -33554431);
    assert_eq!(f.grid[0].c_im, -23488102);
    assert!(f.grid[0].state == CellState::Unknown);
    for k in 0..16 {
        assert_eq!(f.grid[k].i, k);
        assert_eq!(f.grid[k].iter_count, 0);
    }
}

#[test]
fn end_to_end_four_by_four_grid_fully_colored() {
    // default framing at 4 x 4, stepped until only genuinely interior
    // points are left, then shut down: every pixel must hold a defined RGB
    // value, no cell may remain unresolved, and the alpha bytes must be
    // untouched
    let p = ComplexPlane::default();
    let (fitted, _ps) = p.fit_to_screen(4, 4);
    let mut f = Fractal::reseed(&fitted);
    let mut screen = vec![7u8; 64];
    let mut frames: usize = 0;
    while !f.grid.is_empty() && frames < 50 {
        f.step(&mut screen, 10);
        frames += 1;
    }
    f.finalize(&mut screen);
    assert!(f.grid.is_empty());
    for k in 0..16 {
        assert_ne!(screen[4 * k], 7);
        assert_ne!(screen[4 * k + 1], 7);
        assert_ne!(screen[4 * k + 2], 7);
        assert_eq!(screen[4 * k + 3], 7);
    }
}

#[test]
fn working_set_shrinks_monotonically() {
    let p = ComplexPlane::default();
    let (fitted, _ps) = p.fit_to_screen(8, 8);
    let mut f = Fractal::reseed(&fitted);
    let mut screen = vec![0u8; 4 * 64];
    let mut last = f.grid.len();
    for _ in 0..20 {
        f.step(&mut screen, 10);
        assert!(f.grid.len() <= last);
        last = f.grid.len();
        for cell in f.grid.iter() {
            assert!(cell.state == CellState::Unknown);
        }
    }
}

#[test]
fn budget_is_accumulated_across_frames() {
    // c = -0.75 + 0.2i escapes at iteration 16: a budget of 10 per frame
    // leaves it pending after one frame and resolves it in the second, with
    // the true escape count recorded
    let mut cell = Cell::new(-12582912, 3355443, 0);
    cell.update(10);
    assert!(cell.state == CellState::Unknown);
    assert_eq!(cell.iter_count, 10);
    cell.update(10);
    assert!(cell.state == CellState::OutOfSet);
    assert_eq!(cell.iter_count, 16);
}
