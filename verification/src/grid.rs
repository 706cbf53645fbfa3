//! The escape-time grid engine: a working set of per-pixel cells, seeded
//! from a plane's pixel-to-complex mapping, advanced by a fixed iteration
//! budget per frame, pruned of resolved cells, and writing RGB output for an
//! external RGBA8 frame buffer (3 bytes per resolved pixel; the alpha byte
//! belongs to the collaborator).

use vstd::prelude::*;
use vstd::pervasive::VecAdditionalExecFns;

use crate::COORD_LIMIT;
use crate::SCALE;
use crate::cell::CELL_LIMIT;
use crate::cell::Cell;
use crate::cell::CellModel;
use crate::cell::CellState;
use crate::cell::spec_advance;
use crate::cell::spec_in_cardioid;
use crate::color::color_for;
use crate::color::spec_color;
use crate::complex_plane::ComplexPlane;

verus! {

/// The real part seeded for pixel index `idx`: pixel column relative to the
/// image center, times the pixel size, plus the view center.
pub open spec fn spec_seed_re(idx: int, width: int, ps: int, center_re: int) -> int {
    (idx % width - width / 2) * ps + center_re
}

/// The imaginary part seeded for pixel index `idx` (row-major order).
pub open spec fn spec_seed_im(idx: int, width: int, height: int, ps: int, center_im: int) -> int {
    (idx / width - height / 2) * ps + center_im
}

/// The freshly seeded cell for pixel index `idx`: iterate zero, no budget
/// consumed, and proven interior immediately when the coordinate lies in the
/// main cardioid.
pub open spec fn spec_seed_cell(
    idx: int,
    width: int,
    height: int,
    ps: int,
    center_re: int,
    center_im: int,
) -> CellModel {
    let c_re = spec_seed_re(idx, width, ps, center_re);
    let c_im = spec_seed_im(idx, width, height, ps, center_im);
    CellModel {
        z_re: 0,
        z_im: 0,
        c_re: c_re,
        c_im: c_im,
        iter_count: 0,
        i: idx,
        state: if spec_in_cardioid(c_re, c_im) {
            CellState::InSet
        } else {
            CellState::Unknown
        },
    }
}

/// The cell whose mathematical image is `m` (meaningful when every field of
/// `m` is in range of its machine type).
pub open spec fn cell_of_model(m: CellModel) -> Cell {
    Cell {
        z_re: m.z_re as i64,
        z_im: m.z_im as i64,
        c_re: m.c_re as i64,
        c_im: m.c_im as i64,
        iter_count: m.iter_count as usize,
        i: m.i as usize,
        state: m.state,
    }
}

/// A cell after one frame of budget `batch`: unresolved cells advance, the
/// rest are untouched.
pub open spec fn spec_frame_cell(c: Cell, batch: nat) -> Cell {
    if c.state == CellState::Unknown {
        cell_of_model(spec_advance(c@, batch))
    } else {
        c
    }
}

/// Whether byte `j` of the frame buffer belongs to the three RGB bytes of a
/// cell that is resolved after a frame of budget `batch` (those are the only
/// bytes the frame writes).
pub open spec fn spec_touched(grid: Seq<Cell>, batch: nat, j: int) -> bool {
    exists|k: int|
        0 <= k < grid.len() && spec_frame_cell(#[trigger] grid[k], batch).state
            != CellState::Unknown && 4 * grid[k].i <= j <= 4 * grid[k].i + 2
}

/// Whether byte `j` of the frame buffer belongs to the three RGB bytes of
/// any cell of the working set.
pub open spec fn spec_owned(grid: Seq<Cell>, j: int) -> bool {
    exists|k: int| 0 <= k < grid.len() && 4 * (#[trigger] grid[k]).i <= j <= 4 * grid[k].i + 2
}

/// A seeded coordinate stays within the cell coordinate range: the offset
/// to the image center is under half the largest dimension, so its product
/// with a bounded pixel size is small against the view-center bound.
proof fn lemma_seed_bounds(idx: int, width: int, height: int, ps: int, cre: int, cim: int)
    requires
        0 <= idx,
        1 <= width <= 32768,
        1 <= height <= 32768,
        idx < width * height,
        1 <= ps <= SCALE,
        -COORD_LIMIT <= cre <= COORD_LIMIT,
        -COORD_LIMIT <= cim <= COORD_LIMIT,
    ensures
        -CELL_LIMIT <= spec_seed_re(idx, width, ps, cre) <= CELL_LIMIT,
        -CELL_LIMIT <= spec_seed_im(idx, width, height, ps, cim) <= CELL_LIMIT,
{
    vstd::arithmetic::div_mod::lemma_mod_division_less_than_divisor(idx, width);
    vstd::arithmetic::div_mod::lemma_multiply_divide_lt(idx, width, height);
    vstd::arithmetic::div_mod::lemma_div_pos_is_pos(idx, width);
    let dx = idx % width - width / 2;
    let dy = idx / width - height / 2;
    assert(0 <= width / 2 <= width && 0 <= height / 2 <= height) by (nonlinear_arith)
        requires
            1 <= width,
            1 <= height,
    ;
    assert(-0x8000000000 <= dx * ps <= 0x8000000000 && -0x8000000000 <= dy * ps
        <= 0x8000000000) by (nonlinear_arith)
        requires
            -32768 <= dx <= 32768,
            -32768 <= dy <= 32768,
            1 <= ps <= 16777216,
    ;
}

/// The engine: the live working set of unresolved cells, plus the pixel
/// dimensions the grid was seeded for.
pub struct Fractal {
    pub grid: Vec<Cell>,
    pub width: usize,
    pub height: usize,
}

impl Fractal {
    /// Well-formed engine: bounded dimensions, well-formed cells, every
    /// back-reference inside the pixel grid, and back-references strictly
    /// increasing (cells keep row-major order, and no two share a pixel).
    pub open spec fn wf(self) -> bool {
        &&& 0 < self.width
        &&& 0 < self.height
        &&& self.width * self.height <= 0x40000000
        &&& forall|k: int| 0 <= k < self.grid@.len() ==> (#[trigger] self.grid@[k]).wf()
        &&& forall|k: int|
            0 <= k < self.grid@.len() ==> (#[trigger] self.grid@[k]).i < self.width * self.height
        &&& forall|k1: int, k2: int|
            0 <= k1 < k2 < self.grid@.len() ==> (#[trigger] self.grid@[k1]).i < (
            #[trigger] self.grid@[k2]).i
    }

    /// A full grid of freshly seeded cells for the given view: for every
    /// pixel index in row-major order, the complex coordinate is derived
    /// from the pixel's offset to the image center, and interior points of
    /// the main cardioid are classified without any iteration.
    pub fn new(
        width: usize,
        height: usize,
        pixel_size: i64,
        center_re: i64,
        center_im: i64,
    ) -> (r: Fractal)
        requires
            1 <= width <= 32768,
            1 <= height <= 32768,
            1 <= pixel_size <= SCALE,
            -COORD_LIMIT <= center_re <= COORD_LIMIT,
            -COORD_LIMIT <= center_im <= COORD_LIMIT,
        ensures
            r.width == width,
            r.height == height,
            r.grid@.len() == width * height,
            forall|k: int|
                0 <= k < r.grid@.len() ==> (#[trigger] r.grid@[k])@ == spec_seed_cell(
                    k,
                    width as int,
                    height as int,
                    pixel_size as int,
                    center_re as int,
                    center_im as int,
                ),
            r.wf(),
    {
        proof {
            assert(width * height <= 0x40000000) by (nonlinear_arith)
                requires
                    1 <= width <= 32768,
                    1 <= height <= 32768,
            ;
        }
        let n: usize = width * height;
        let mut grid: Vec<Cell> = Vec::new();
        let mut idx: usize = 0;
        while idx < n
            invariant
                n == width * height,
                1 <= width <= 32768,
                1 <= height <= 32768,
                1 <= pixel_size <= SCALE,
                -COORD_LIMIT <= center_re <= COORD_LIMIT,
                -COORD_LIMIT <= center_im <= COORD_LIMIT,
                0 <= idx <= n,
                grid@.len() == idx,
                forall|k: int|
                    0 <= k < idx ==> (#[trigger] grid@[k])@ == spec_seed_cell(
                        k,
                        width as int,
                        height as int,
                        pixel_size as int,
                        center_re as int,
                        center_im as int,
                    ),
            decreases n - idx,
        {
            let px: usize = idx % width;
            let py: usize = idx / width;
            proof {
                vstd::arithmetic::div_mod::lemma_multiply_divide_lt(
                    idx as int,
                    width as int,
                    height as int,
                );
            }
            let dx: i64 = px as i64 - (width / 2) as i64;
            let dy: i64 = py as i64 - (height / 2) as i64;
            proof {
                assert(-0x8000000000 <= (dx as int) * (pixel_size as int) <= 0x8000000000
                    && -0x8000000000 <= (dy as int) * (pixel_size as int) <= 0x8000000000)
                    by (nonlinear_arith)
                    requires
                        -32768 <= dx <= 32768,
                        -32768 <= dy <= 32768,
                        1 <= pixel_size <= SCALE,
                        SCALE == 16777216i64,
                ;
            }
            let c_re: i64 = dx * pixel_size + center_re;
            let c_im: i64 = dy * pixel_size + center_im;
            let mut cell = Cell::new(c_re, c_im, idx);
            cell.check_for_main_cardioid();
            grid.push(cell);
            idx = idx + 1;
        }
        proof {
            assert forall|k: int| 0 <= k < grid@.len() implies (#[trigger] grid@[k]).wf() by {
                lemma_seed_bounds(
                    k,
                    width as int,
                    height as int,
                    pixel_size as int,
                    center_re as int,
                    center_im as int,
                );
            };
        }
        Fractal { grid, width, height }
    }

    /// A full grid of cells seeded from a plane: the pixel size is the
    /// plane's derived scalar and the view center is the plane's center.
    /// This is a complete, atomic replacement for any previous working set.
    pub fn reseed(plane: &ComplexPlane) -> (r: Fractal)
        requires
            plane.wf(),
            1 <= plane.spec_pixel_size() <= SCALE,
        ensures
            r.width == plane.width,
            r.height == plane.height,
            r.grid@.len() == plane.width * plane.height,
            forall|k: int|
                0 <= k < r.grid@.len() ==> (#[trigger] r.grid@[k])@ == spec_seed_cell(
                    k,
                    plane.width as int,
                    plane.height as int,
                    plane.spec_pixel_size(),
                    crate::tdiv(plane.min_re + plane.max_re, 2),
                    crate::tdiv(plane.min_im + plane.max_im, 2),
                ),
            r.wf(),
    {
        let ps = plane.pixel_size();
        let center_re: i64 = (plane.min_re + plane.max_re) / 2;
        let center_im: i64 = (plane.min_im + plane.max_im) / 2;
        Fractal::new(plane.width as usize, plane.height as usize, ps, center_re, center_im)
    }

    /// One frame: advance every unresolved cell by up to `batch` iterations,
    /// write the RGB bytes of every cell that is now resolved (escaped cells
    /// get their iteration-count color, proven members the sentinel black),
    /// drop the resolved cells, and keep only the still-unresolved cells —
    /// so the working set shrinks monotonically within one view session, and
    /// no frame's compute cost exceeds `batch` iterations per live cell.
    pub fn step(&mut self, screen: &mut Vec<u8>, batch: usize)
        requires
            old(self).wf(),
            old(screen)@.len() == 4 * old(self).width * old(self).height,
            forall|k: int|
                0 <= k < old(self).grid@.len() ==> (#[trigger] old(self).grid@[k]).iter_count
                    + batch + 10 <= usize::MAX,
        ensures
            final(self).width == old(self).width,
            final(self).height == old(self).height,
            final(self).wf(),
            final(screen)@.len() == old(screen)@.len(),
            final(self).grid@ == old(self).grid@.map_values(
                |c: Cell| spec_frame_cell(c, batch as nat),
            ).filter(|c: Cell| c.state == CellState::Unknown),
            final(self).grid@.len() <= old(self).grid@.len(),
            forall|k: int|
                0 <= k < old(self).grid@.len() ==> {
                    let fc = spec_frame_cell(#[trigger] old(self).grid@[k], batch as nat);
                    &&& (fc.state == CellState::OutOfSet ==> {
                        &&& final(screen)@[4 * fc.i] as int == spec_color(fc.iter_count as int).0
                        &&& final(screen)@[4 * fc.i + 1] as int == spec_color(
                            fc.iter_count as int,
                        ).1
                        &&& final(screen)@[4 * fc.i + 2] as int == spec_color(
                            fc.iter_count as int,
                        ).2
                    })
                    &&& (fc.state == CellState::InSet ==> {
                        &&& final(screen)@[4 * fc.i] == 0u8
                        &&& final(screen)@[4 * fc.i + 1] == 0u8
                        &&& final(screen)@[4 * fc.i + 2] == 0u8
                    })
                },
            forall|j: int|
                0 <= j < old(screen)@.len() && !spec_touched(old(self).grid@, batch as nat, j)
                    ==> final(screen)@[j] == old(screen)@[j],
    {
        let ghost g0 = self.grid@;
        let ghost b0 = screen@;
        let mut new_grid: Vec<Cell> = Vec::new();
        let n: usize = self.grid.len();
        let mut idx: usize = 0;
        while idx < n
            invariant
                self.wf(),
                self.grid@ == g0,
                n == g0.len(),
                0 <= idx <= n,
                screen@.len() == b0.len(),
                b0.len() == 4 * self.width * self.height,
                forall|k: int|
                    0 <= k < n ==> (#[trigger] g0[k]).iter_count + batch + 10 <= usize::MAX,
                new_grid@ == g0.subrange(0, idx as int).map_values(
                    |c: Cell| spec_frame_cell(c, batch as nat),
                ).filter(|c: Cell| c.state == CellState::Unknown),
                forall|j: int| 0 <= j < new_grid@.len() ==> (#[trigger] new_grid@[j]).wf(),
                forall|j: int|
                    0 <= j < new_grid@.len() ==> (#[trigger] new_grid@[j]).i < self.width
                        * self.height,
                forall|j1: int, j2: int|
                    0 <= j1 < j2 < new_grid@.len() ==> (#[trigger] new_grid@[j1]).i < (
                    #[trigger] new_grid@[j2]).i,
                forall|j: int|
                    0 <= j < new_grid@.len() && idx < n ==> (#[trigger] new_grid@[j]).i
                        < g0[idx as int].i,
                forall|k: int|
                    0 <= k < idx ==> {
                        let fc = spec_frame_cell(#[trigger] g0[k], batch as nat);
                        &&& (fc.state == CellState::OutOfSet ==> {
                            &&& screen@[4 * fc.i] as int == spec_color(fc.iter_count as int).0
                            &&& screen@[4 * fc.i + 1] as int == spec_color(fc.iter_count as int).1
                            &&& screen@[4 * fc.i + 2] as int == spec_color(fc.iter_count as int).2
                        })
                        &&& (fc.state == CellState::InSet ==> {
                            &&& screen@[4 * fc.i] == 0u8
                            &&& screen@[4 * fc.i + 1] == 0u8
                            &&& screen@[4 * fc.i + 2] == 0u8
                        })
                    },
                forall|j: int|
                    0 <= j < b0.len() && !spec_touched(
                        g0.subrange(0, idx as int),
                        batch as nat,
                        j,
                    ) ==> screen@[j] == b0[j],
            decreases n - idx,
        {
            let ghost sub = g0.subrange(0, idx as int);
            let ghost fcell = spec_frame_cell(g0[idx as int], batch as nat);
            let ghost scr0 = screen@;
            let mut cell = self.grid[idx];
            match cell.state {
                CellState::Unknown => {
                    cell.update(batch);
                },
                _ => {},
            }
            proof {
                assert(cell =~= fcell);
                assert(cell.i == g0[idx as int].i && cell.i < self.width * self.height);
                assert((4 * self.width) * self.height == 4 * (self.width * self.height))
                    by (nonlinear_arith);
                assert(4 * cell.i + 2 < screen@.len());
            }
            match cell.state {
                CellState::OutOfSet => {
                    let rgb = color_for(cell.iter_count);
                    let base: usize = 4 * cell.i;
                    screen.set(base, rgb.0);
                    screen.set(base + 1, rgb.1);
                    screen.set(base + 2, rgb.2);
                },
                CellState::InSet => {
                    let base: usize = 4 * cell.i;
                    screen.set(base, 0);
                    screen.set(base + 1, 0);
                    screen.set(base + 2, 0);
                },
                CellState::Unknown => {
                    new_grid.push(cell);
                },
            }
            proof {
                let subn = g0.subrange(0, idx + 1);
                assert(subn =~= sub.push(g0[idx as int]));
                assert(subn.map_values(|c: Cell| spec_frame_cell(c, batch as nat)) =~= sub
                    .map_values(|c: Cell| spec_frame_cell(c, batch as nat)).push(fcell));
                sub.map_values(|c: Cell| spec_frame_cell(c, batch as nat)).lemma_filter_push(
                    fcell,
                    |c: Cell| c.state == CellState::Unknown,
                );
                if fcell.state != CellState::Unknown {
                    assert forall|j: int|
                        4 * fcell.i <= j <= 4 * fcell.i + 2 implies spec_touched(
                        subn,
                        batch as nat,
                        j,
                    ) by {
                        assert(subn[idx as int] == g0[idx as int]);
                        assert(spec_frame_cell(subn[idx as int], batch as nat).state
                            != CellState::Unknown && 4 * subn[idx as int].i <= j <= 4
                            * subn[idx as int].i + 2);
                    };
                }
                crate::cell::lemma_advance_fields(g0[idx as int]@, batch as nat);
                assert(fcell.i == g0[idx as int].i);
                assert forall|k: int|
                    0 <= k < idx + 1 implies {
                    let fc = spec_frame_cell(#[trigger] g0[k], batch as nat);
                    &&& (fc.state == CellState::OutOfSet ==> {
                        &&& screen@[4 * fc.i] as int == spec_color(fc.iter_count as int).0
                        &&& screen@[4 * fc.i + 1] as int == spec_color(fc.iter_count as int).1
                        &&& screen@[4 * fc.i + 2] as int == spec_color(fc.iter_count as int).2
                    })
                    &&& (fc.state == CellState::InSet ==> {
                        &&& screen@[4 * fc.i] == 0u8
                        &&& screen@[4 * fc.i + 1] == 0u8
                        &&& screen@[4 * fc.i + 2] == 0u8
                    })
                } by {
                    let fc = spec_frame_cell(g0[k], batch as nat);
                    crate::cell::lemma_advance_fields(g0[k]@, batch as nat);
                    assert(fc.i == g0[k].i);
                    assert(self.grid@[k] == g0[k]);
                    assert(g0[k].i < self.width * self.height);
                    assert((4 * self.width) * self.height == 4 * (self.width * self.height))
                        by (nonlinear_arith);
                    if k < idx {
                        assert(self.grid@[idx as int] == g0[idx as int]);
                        assert(g0[k].i < g0[idx as int].i);
                    }
                };
                assert forall|j: int|
                    0 <= j < b0.len() && !spec_touched(subn, batch as nat, j) implies !spec_touched(
                    sub,
                    batch as nat,
                    j,
                ) by {
                    if spec_touched(sub, batch as nat, j) {
                        let k = choose|k: int|
                            0 <= k < sub.len() && spec_frame_cell(#[trigger] sub[k], batch as nat).state
                                != CellState::Unknown && 4 * sub[k].i <= j <= 4 * sub[k].i + 2;
                        assert(subn[k] == sub[k]);
                    }
                };
            }
            idx = idx + 1;
        }
        proof {
            assert(g0.subrange(0, n as int) =~= g0);
            g0.map_values(|c: Cell| spec_frame_cell(c, batch as nat)).lemma_filter_len(
                |c: Cell| c.state == CellState::Unknown,
            );
        }
        self.grid = new_grid;
    }

    /// Shutdown coloring: map every cell still in the working set — proven
    /// members and cells unresolved at shutdown alike — to the sentinel
    /// color (black), and empty the working set.
    pub fn finalize(&mut self, screen: &mut Vec<u8>)
        requires
            old(self).wf(),
            old(screen)@.len() == 4 * old(self).width * old(self).height,
        ensures
            final(self).width == old(self).width,
            final(self).height == old(self).height,
            final(self).wf(),
            final(self).grid@.len() == 0,
            final(screen)@.len() == old(screen)@.len(),
            forall|k: int|
                0 <= k < old(self).grid@.len() ==> {
                    let c = #[trigger] old(self).grid@[k];
                    &&& final(screen)@[4 * c.i] == 0u8
                    &&& final(screen)@[4 * c.i + 1] == 0u8
                    &&& final(screen)@[4 * c.i + 2] == 0u8
                },
            forall|j: int|
                0 <= j < old(screen)@.len() && !spec_owned(old(self).grid@, j)
                    ==> final(screen)@[j] == old(screen)@[j],
    {
        let ghost g0 = self.grid@;
        let ghost b0 = screen@;
        let n: usize = self.grid.len();
        let mut idx: usize = 0;
        while idx < n
            invariant
                self.wf(),
                self.grid@ == g0,
                n == g0.len(),
                0 <= idx <= n,
                screen@.len() == b0.len(),
                b0.len() == 4 * self.width * self.height,
                forall|k: int|
                    0 <= k < idx ==> {
                        let c = #[trigger] g0[k];
                        &&& screen@[4 * c.i] == 0u8
                        &&& screen@[4 * c.i + 1] == 0u8
                        &&& screen@[4 * c.i + 2] == 0u8
                    },
                forall|j: int|
                    0 <= j < b0.len() && !spec_owned(g0.subrange(0, idx as int), j) ==> screen@[j]
                        == b0[j],
            decreases n - idx,
        {
            let cell = self.grid[idx];
            proof {
                assert((4 * self.width) * self.height == 4 * (self.width * self.height))
                    by (nonlinear_arith);
                assert(cell.i < self.width * self.height);
            }
            let base: usize = 4 * cell.i;
            screen.set(base, 0);
            screen.set(base + 1, 0);
            screen.set(base + 2, 0);
            proof {
                let sub = g0.subrange(0, idx as int);
                let subn = g0.subrange(0, idx + 1);
                assert(subn =~= sub.push(g0[idx as int]));
                assert forall|j: int|
                    4 * g0[idx as int].i <= j <= 4 * g0[idx as int].i + 2 implies spec_owned(
                    subn,
                    j,
                ) by {
                    assert(subn[idx as int] == g0[idx as int]);
                    assert(4 * subn[idx as int].i <= j <= 4 * subn[idx as int].i + 2);
                };
                assert forall|k: int|
                    0 <= k < idx + 1 implies {
                    let c = #[trigger] g0[k];
                    &&& screen@[4 * c.i] == 0u8
                    &&& screen@[4 * c.i + 1] == 0u8
                    &&& screen@[4 * c.i + 2] == 0u8
                } by {
                    assert(self.grid@[k] == g0[k]);
                    assert(g0[k].i < self.width * self.height);
                    if k < idx {
                        assert(self.grid@[idx as int] == g0[idx as int]);
                        assert(g0[k].i < g0[idx as int].i);
                    }
                };
                assert forall|j: int|
                    0 <= j < b0.len() && !spec_owned(subn, j) implies !spec_owned(sub, j) by {
                    if spec_owned(sub, j) {
                        let k = choose|k: int|
                            0 <= k < sub.len() && 4 * (#[trigger] sub[k]).i <= j <= 4 * sub[k].i
                                + 2;
                        assert(subn[k] == sub[k]);
                    }
                };
            }
            idx = idx + 1;
        }
        self.grid = Vec::new();
    }
}

} // verus!
