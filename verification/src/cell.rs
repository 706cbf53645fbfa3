//! Per-pixel escape-time state: the iterate `z`, the fixed coordinate `c`,
//! the accumulated iteration count and the resolution state, together with
//! the closed-form main-cardioid short-circuit and the bounded-budget
//! iteration step `z <- z^2 + c`.

use vstd::prelude::*;

use crate::SCALE;
use crate::tdiv;

verus! {

/// Largest magnitude a cell coordinate or a stored iterate may take (`2^41`).
pub const CELL_LIMIT: i64 = 2199023255552;

/// Resolution state of one cell.  Once a cell leaves `Unknown` it never
/// returns to it.
#[derive(Clone, Copy, Debug, PartialEq, Eq, Structural)]
pub enum CellState {
    /// The orbit escaped: the point is outside the set.
    OutOfSet,
    /// The point was proven a member (main cardioid) without iterating.
    InSet,
    /// Not resolved yet; carried to the next frame.
    Unknown,
}

/// One cell per pixel: the current iterate `z`, the pixel's fixed complex
/// coordinate `c`, the iterations consumed so far, the back-reference into
/// the output buffer, and the resolution state.  All coordinates are
/// fixed-point (`1 / SCALE` units).
#[derive(Clone, Copy, Debug)]
#[verifier::ext_equal]
pub struct Cell {
    pub z_re: i64,
    pub z_im: i64,
    pub c_re: i64,
    pub c_im: i64,
    pub iter_count: usize,
    pub i: usize,
    pub state: CellState,
}

/// The mathematical image of a cell: the same fields over unbounded integers.
#[verifier::ext_equal]
pub struct CellModel {
    pub z_re: int,
    pub z_im: int,
    pub c_re: int,
    pub c_im: int,
    pub iter_count: int,
    pub i: int,
    pub state: CellState,
}

impl View for Cell {
    type V = CellModel;

    open spec fn view(&self) -> CellModel {
        CellModel {
            z_re: self.z_re as int,
            z_im: self.z_im as int,
            c_re: self.c_re as int,
            c_im: self.c_im as int,
            iter_count: self.iter_count as int,
            i: self.i as int,
            state: self.state,
        }
    }
}

/// Real part of one fixed-point iteration step `z^2 + c` (the product is
/// rescaled by a truncating division).
pub open spec fn spec_step_re(z_re: int, z_im: int, c_re: int) -> int {
    tdiv(z_re * z_re - z_im * z_im, SCALE as int) + c_re
}

/// Imaginary part of one fixed-point iteration step `z^2 + c`.
pub open spec fn spec_step_im(z_re: int, z_im: int, c_im: int) -> int {
    tdiv(2 * z_re * z_im, SCALE as int) + c_im
}

/// Squared magnitude of a fixed-point complex value, at scale `SCALE^2`.
pub open spec fn spec_norm2(re: int, im: int) -> int {
    re * re + im * im
}

/// The escape test: `|z|^2 > 4`, in fixed-point form.  Divergence is
/// guaranteed once this threshold is crossed, so no further guard is needed.
pub open spec fn spec_escaped(re: int, im: int) -> bool {
    spec_norm2(re, im) > 4 * (SCALE as int) * (SCALE as int)
}

/// The closed-form main-cardioid membership test on fixed-point coordinates.
/// With `x = c_re - 1/4` and `q = x^2 + c_im^2` (so `q` carries scale
/// `SCALE^2`), a point is strictly inside the main cardioid exactly when
/// `q * (q + x) < c_im^2 / 4`; the first conjunct states that the point lies
/// within distance one of the cusp center `(1/4, 0)`, which every cardioid
/// point satisfies, and keeps the products of the exact integer comparison
/// small.
pub open spec fn spec_in_cardioid(c_re: int, c_im: int) -> bool {
    let x = c_re - (SCALE as int) / 4;
    let q = x * x + c_im * c_im;
    &&& q < (SCALE as int) * (SCALE as int)
    &&& 4 * q * (q + x * (SCALE as int)) < c_im * c_im * (SCALE as int) * (SCALE as int)
}

/// Advancing a cell by up to `budget` iterations of `z <- z^2 + c`: stop
/// early, with the consumed iterations recorded and the state `OutOfSet`, as
/// soon as the iterate escapes; otherwise consume the whole budget and leave
/// the state untouched.
pub open spec fn spec_advance(m: CellModel, budget: nat) -> CellModel
    decreases budget,
{
    if budget == 0 {
        m
    } else {
        let zr = spec_step_re(m.z_re, m.z_im, m.c_re);
        let zi = spec_step_im(m.z_re, m.z_im, m.c_im);
        let m1 = CellModel { z_re: zr, z_im: zi, iter_count: m.iter_count + 1, ..m };
        if spec_escaped(zr, zi) {
            CellModel { state: CellState::OutOfSet, ..m1 }
        } else {
            spec_advance(m1, (budget - 1) as nat)
        }
    }
}

/// Advancing a cell never changes its coordinate or its back-reference,
/// consumes at most the budget, and can only leave an unresolved cell
/// unresolved or escaped.
pub proof fn lemma_advance_fields(m: CellModel, budget: nat)
    ensures
        spec_advance(m, budget).i == m.i,
        spec_advance(m, budget).c_re == m.c_re,
        spec_advance(m, budget).c_im == m.c_im,
        m.iter_count <= spec_advance(m, budget).iter_count <= m.iter_count + budget,
        m.state == CellState::Unknown ==> (spec_advance(m, budget).state == CellState::Unknown
            || spec_advance(m, budget).state == CellState::OutOfSet),
    decreases budget,
{
    if budget > 0 {
        let zr = spec_step_re(m.z_re, m.z_im, m.c_re);
        let zi = spec_step_im(m.z_re, m.z_im, m.c_im);
        let m1 = CellModel { z_re: zr, z_im: zi, iter_count: m.iter_count + 1, ..m };
        if !spec_escaped(zr, zi) {
            lemma_advance_fields(m1, (budget - 1) as nat);
        }
    }
}

impl Cell {
    /// Well-formed cell: the coordinate is in range, and an unresolved cell's
    /// iterate has not escaped (so one more step cannot overflow).
    pub open spec fn wf(self) -> bool {
        &&& -CELL_LIMIT <= self.c_re <= CELL_LIMIT
        &&& -CELL_LIMIT <= self.c_im <= CELL_LIMIT
        &&& self.state == CellState::Unknown ==> spec_norm2(self.z_re as int, self.z_im as int)
            <= 4 * (SCALE as int) * (SCALE as int)
    }

    /// A fresh, unresolved cell at coordinate `c`, with iterate zero.
    pub fn new(c_re: i64, c_im: i64, pixel_index: usize) -> (r: Cell)
        requires
            -CELL_LIMIT <= c_re <= CELL_LIMIT,
            -CELL_LIMIT <= c_im <= CELL_LIMIT,
        ensures
            r == (Cell {
                z_re: 0i64,
                z_im: 0i64,
                c_re: c_re,
                c_im: c_im,
                iter_count: 0usize,
                i: pixel_index,
                state: CellState::Unknown,
            }),
            r.wf(),
    {
        Cell {
            z_re: 0,
            z_im: 0,
            c_re,
            c_im,
            iter_count: 0,
            i: pixel_index,
            state: CellState::Unknown,
        }
    }

    /// If the coordinate lies in the main cardioid, mark the cell a proven
    /// member without consuming any iteration budget; otherwise leave it
    /// untouched.
    pub fn check_for_main_cardioid(&mut self)
        requires
            old(self).wf(),
        ensures
            *final(self) == (if spec_in_cardioid(
                old(self).c_re as int,
                old(self).c_im as int,
            ) {
                Cell { state: CellState::InSet, ..*old(self) }
            } else {
                *old(self)
            }),
            final(self).wf(),
    {
        let x: i64 = self.c_re - SCALE / 4;
        proof {
            assert(0 <= (x as int) * (x as int) <= 0x100000000000000000000000
                && 0 <= (self.c_im as int) * (self.c_im as int) <= 0x100000000000000000000000)
                by (nonlinear_arith)
                requires
                    -0x80000000000 <= x <= 0x80000000000,
                    -0x80000000000 <= self.c_im <= 0x80000000000,
            ;
        }
        let q: i128 = (x as i128) * (x as i128) + (self.c_im as i128) * (self.c_im as i128);
        let s2: i128 = (SCALE as i128) * (SCALE as i128);
        if q < s2 {
            proof {
                let xi = x as int;
                let ci = self.c_im as int;
                let qi = q as int;
                assert(-(SCALE as int) <= xi <= SCALE as int && ci * ci <= qi)
                    by (nonlinear_arith)
                    requires
                        qi == xi * xi + ci * ci,
                        qi < (SCALE as int) * (SCALE as int),
                        SCALE == 16777216i64,
                ;
                assert(0 <= 4 * qi && 4 * qi <= 0x4000000000001
                    && -0x1000000000000 <= qi + xi * (SCALE as int) <= 0x2000000000000
                    && -0x10000000000000000000000000 <= 4 * qi * (qi + xi * (SCALE as int))
                        <= 0x10000000000000000000000000
                    && 0 <= ci * ci * (SCALE as int) * (SCALE as int)
                        <= 0x10000000000000000000000000) by (nonlinear_arith)
                    requires
                        0 <= qi < (SCALE as int) * (SCALE as int),
                        -(SCALE as int) <= xi <= SCALE as int,
                        ci * ci <= qi,
                        SCALE == 16777216i64,
                ;
            }
            let lhs: i128 = 4 * q * (q + (x as i128) * (SCALE as i128));
            let rhs: i128 = (self.c_im as i128) * (self.c_im as i128) * s2;
            if lhs < rhs {
                self.state = CellState::InSet;
            }
        }
    }

    /// Run up to `budget` iterations of `z <- z^2 + c` on an unresolved cell,
    /// with early termination on escape; the exact outcome is the one
    /// `spec_advance` describes.
    pub fn update(&mut self, budget: usize)
        requires
            old(self).wf(),
            old(self).state == CellState::Unknown,
            old(self).iter_count + budget <= usize::MAX,
        ensures
            final(self)@ == spec_advance(old(self)@, budget as nat),
            final(self).wf(),
            final(self).c_re == old(self).c_re,
            final(self).c_im == old(self).c_im,
            final(self).i == old(self).i,
            old(self).iter_count <= final(self).iter_count <= old(self).iter_count + budget,
            final(self).state == CellState::OutOfSet || final(self).state == CellState::Unknown,
    {
        let s2: i128 = (SCALE as i128) * (SCALE as i128);
        let mut k: usize = 0;
        while k < budget
            invariant
                0 <= k <= budget,
                self.wf(),
                self.state == CellState::Unknown,
                self.c_re == old(self).c_re,
                self.c_im == old(self).c_im,
                self.i == old(self).i,
                self.iter_count == old(self).iter_count + k,
                old(self).iter_count + budget <= usize::MAX,
                s2 == (SCALE as int) * (SCALE as int),
                spec_advance(old(self)@, budget as nat) == spec_advance(
                    self@,
                    (budget - k) as nat,
                ),
            decreases budget - k,
        {
            let zr = self.z_re;
            let zi = self.z_im;
            proof {
                lemma_step_bounds(zr as int, zi as int, self.c_re as int, self.c_im as int);
            }
            let sq_re: i64 = (zr * zr - zi * zi) / SCALE;
            let sq_im: i64 = (2 * zr * zi) / SCALE;
            let nzr: i64 = sq_re + self.c_re;
            let nzi: i64 = sq_im + self.c_im;
            proof {
                assert(0 <= (nzr as int) * (nzr as int) <= 0x1000000000000000000000000
                    && 0 <= (nzi as int) * (nzi as int) <= 0x1000000000000000000000000)
                    by (nonlinear_arith)
                    requires
                        -0x800000000000 <= nzr <= 0x800000000000,
                        -0x800000000000 <= nzi <= 0x800000000000,
                ;
            }
            let n2: i128 = (nzr as i128) * (nzr as i128) + (nzi as i128) * (nzi as i128);
            self.z_re = nzr;
            self.z_im = nzi;
            self.iter_count = self.iter_count + 1;
            k = k + 1;
            if n2 > 4 * s2 {
                self.state = CellState::OutOfSet;
                return ;
            }
        }
    }
}

/// Bounds for one fixed-point iteration step applied to a not-yet-escaped
/// iterate: every intermediate of the step fits comfortably in `i64`, and
/// the step's exec arithmetic equals `spec_step_re` / `spec_step_im`.
proof fn lemma_step_bounds(z_re: int, z_im: int, c_re: int, c_im: int)
    requires
        z_re * z_re + z_im * z_im <= 4 * (SCALE as int) * (SCALE as int),
        -CELL_LIMIT <= c_re <= CELL_LIMIT,
        -CELL_LIMIT <= c_im <= CELL_LIMIT,
    ensures
        -2 * (SCALE as int) <= z_re <= 2 * (SCALE as int),
        -2 * (SCALE as int) <= z_im <= 2 * (SCALE as int),
        0 <= z_re * z_re <= 4 * (SCALE as int) * (SCALE as int),
        0 <= z_im * z_im <= 4 * (SCALE as int) * (SCALE as int),
        -8 * (SCALE as int) * (SCALE as int) <= 2 * z_re * z_im <= 8 * (SCALE as int) * (
        SCALE as int),
        -4 * (SCALE as int) <= tdiv(z_re * z_re - z_im * z_im, SCALE as int) <= 4 * (SCALE as int),
        -8 * (SCALE as int) <= tdiv(2 * z_re * z_im, SCALE as int) <= 8 * (SCALE as int),
        -0x800000000000 <= spec_step_re(z_re, z_im, c_re) <= 0x800000000000,
        -0x800000000000 <= spec_step_im(z_re, z_im, c_im) <= 0x800000000000,
{
    let s = SCALE as int;
    assert(0 <= z_re * z_re && 0 <= z_im * z_im && 2 * z_re * z_im <= z_re * z_re + z_im * z_im
        && -(z_re * z_re + z_im * z_im) <= 2 * z_re * z_im) by (nonlinear_arith);
    assert(-2 * s <= z_re <= 2 * s && -2 * s <= z_im <= 2 * s) by (nonlinear_arith)
        requires
            0 <= z_re * z_re <= 4 * s * s,
            0 <= z_im * z_im <= 4 * s * s,
            z_re * z_re + z_im * z_im <= 4 * s * s,
            s == 16777216,
    ;
    lemma_tdiv_bounds(z_re * z_re - z_im * z_im, s, 4 * s * s);
    lemma_tdiv_bounds(2 * z_re * z_im, s, 8 * s * s);
    assert((4 * s * s) / s == 4 * s && (8 * s * s) / s == 8 * s) by (nonlinear_arith)
        requires
            s == 16777216,
    ;
}

/// Truncating division shrinks magnitudes: `|a| <= m` gives
/// `|tdiv(a, b)| <= m / b` for a positive divisor.
proof fn lemma_tdiv_bounds(a: int, b: int, m: int)
    requires
        1 <= b,
        0 <= m,
        -m <= a <= m,
    ensures
        -(m / b) <= tdiv(a, b) <= m / b,
{
    if a >= 0 {
        assert(0 <= a / b <= m / b) by (nonlinear_arith)
            requires
                1 <= b,
                0 <= a <= m,
        ;
    } else {
        assert(0 <= (-a) / b <= m / b) by (nonlinear_arith)
            requires
                1 <= b,
                0 <= -a <= m,
        ;
    }
}

} // verus!
