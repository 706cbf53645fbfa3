//! The visible rectangle of the complex plane, and the pure pan / zoom /
//! fit-to-screen transforms on it.
//!
//! Coordinates are fixed-point (`i64` counts of `1 / SCALE` plane units, see
//! the crate root).  All panning and zooming arithmetic is expressed in units
//! of the derived scalar `pixel_size`, the width in plane units that one
//! square pixel spans.

use vstd::prelude::*;

use crate::COORD_LIMIT;
use crate::DIM_LIMIT;
use crate::tdiv;
use vstd::arithmetic::div_mod::lemma_div_by_multiple;
use vstd::arithmetic::div_mod::lemma_div_multiples_vanish;

verus! {

/// Representation of the coordinate space of the Mandelbrot set: opposite
/// corners of the visible rectangle, plus the target pixel dimensions.
#[derive(Clone, Copy, Debug, PartialEq, Eq, Structural)]
#[verifier::ext_equal]
pub struct ComplexPlane {
    pub min_re: i64,
    pub min_im: i64,
    pub max_re: i64,
    pub max_im: i64,
    /// image size in pixels
    pub width: u32,
    pub height: u32,
}

impl ComplexPlane {
    /// Well-formed plane: positive, bounded pixel dimensions, a non-empty
    /// rectangle, and corner coordinates small enough that every transform
    /// stays far from `i64` overflow.
    pub open spec fn wf(self) -> bool {
        &&& 0 < self.width <= DIM_LIMIT
        &&& 0 < self.height <= DIM_LIMIT
        &&& self.min_re < self.max_re
        &&& self.min_im < self.max_im
        &&& -COORD_LIMIT <= self.min_re
        &&& self.max_re <= COORD_LIMIT
        &&& -COORD_LIMIT <= self.min_im
        &&& self.max_im <= COORD_LIMIT
    }

    /// How big one pixel is in plane units: the larger of the two span/dimension
    /// ratios, so that pixels are square (1:1) whatever the window aspect is.
    pub open spec fn spec_pixel_size(self) -> int {
        let pw = (self.max_re - self.min_re) / (self.width as int);
        let ph = (self.max_im - self.min_im) / (self.height as int);
        if pw >= ph {
            pw
        } else {
            ph
        }
    }

    /// Computes how big one pixel is in the complex plane.
    /// Adjusts the aspect ratio to 1:1.
    pub fn pixel_size(&self) -> (r: i64)
        requires
            self.wf(),
        ensures
            r == self.spec_pixel_size(),
            0 <= r <= 2 * COORD_LIMIT,
    {
        proof {
            self.lemma_pixel_size_bounds();
        }
        let pw = (self.max_re - self.min_re) / (self.width as i64);
        let ph = (self.max_im - self.min_im) / (self.height as i64);
        if pw >= ph {
            pw
        } else {
            ph
        }
    }

    /// The plane translated along the real axis by `pixels` pixel widths;
    /// positive `pixels` moves the view left.
    pub open spec fn spec_move_left(self, pixels: int) -> ComplexPlane {
        let d = pixels * self.spec_pixel_size();
        ComplexPlane { min_re: (self.min_re - d) as i64, max_re: (self.max_re - d) as i64, ..self }
    }

    /// The plane translated along the imaginary axis by `pixels` pixel
    /// widths; positive `pixels` moves the view down.
    pub open spec fn spec_move_down(self, pixels: int) -> ComplexPlane {
        let d = pixels * self.spec_pixel_size();
        ComplexPlane { min_im: (self.min_im - d) as i64, max_im: (self.max_im - d) as i64, ..self }
    }

    /// Whether the translated corners stay within the coordinate range, so
    /// that the translation is exact.
    pub open spec fn move_left_ok(self, pixels: int) -> bool {
        let d = pixels * self.spec_pixel_size();
        &&& -COORD_LIMIT <= self.min_re - d
        &&& self.max_re - d <= COORD_LIMIT
    }

    /// Whether the vertically translated corners stay within range.
    pub open spec fn move_down_ok(self, pixels: int) -> bool {
        let d = pixels * self.spec_pixel_size();
        &&& -COORD_LIMIT <= self.min_im - d
        &&& self.max_im - d <= COORD_LIMIT
    }

    /// The product of a pixel count with a pixel size stays far inside the
    /// `i128` range.
    proof fn lemma_pan_product_bounds(self, pixels: int)
        requires
            self.wf(),
            -0x8000000000000000 <= pixels <= 0x7fffffffffffffff,
        ensures
            -0x100000000000000000000000000 <= pixels * self.spec_pixel_size()
                <= 0x100000000000000000000000000,
    {
        self.lemma_pixel_size_bounds();
        let s = self.spec_pixel_size();
        assert(-0x100000000000000000000000000 <= pixels * s <= 0x100000000000000000000000000)
            by (nonlinear_arith)
            requires
                -0x8000000000000000 <= pixels <= 0x7fffffffffffffff,
                0 <= s <= 2 * COORD_LIMIT,
        ;
    }

    /// True exactly when `move_left(pixels)` may be called.
    pub fn can_move_left(&self, pixels: i64) -> (b: bool)
        requires
            self.wf(),
        ensures
            b == self.move_left_ok(pixels as int),
    {
        proof {
            self.lemma_pan_product_bounds(pixels as int);
        }
        let ps = self.pixel_size();
        let d: i128 = (pixels as i128) * (ps as i128);
        -(COORD_LIMIT as i128) <= (self.min_re as i128) - d && (self.max_re as i128) - d
            <= (COORD_LIMIT as i128)
    }

    /// True exactly when `move_down(pixels)` may be called.
    pub fn can_move_down(&self, pixels: i64) -> (b: bool)
        requires
            self.wf(),
        ensures
            b == self.move_down_ok(pixels as int),
    {
        proof {
            self.lemma_pan_product_bounds(pixels as int);
        }
        let ps = self.pixel_size();
        let d: i128 = (pixels as i128) * (ps as i128);
        -(COORD_LIMIT as i128) <= (self.min_im as i128) - d && (self.max_im as i128) - d
            <= (COORD_LIMIT as i128)
    }

    /// Negative pixels move it to the right.
    pub fn move_left(&self, pixels: i64) -> (r: ComplexPlane)
        requires
            self.wf(),
            self.move_left_ok(pixels as int),
        ensures
            r == self.spec_move_left(pixels as int),
            r.min_re == self.min_re - pixels * self.spec_pixel_size(),
            r.max_re == self.max_re - pixels * self.spec_pixel_size(),
            r.wf(),
    {
        proof {
            self.lemma_pan_product_bounds(pixels as int);
        }
        let ps = self.pixel_size();
        let d: i128 = (pixels as i128) * (ps as i128);
        ComplexPlane {
            min_re: ((self.min_re as i128) - d) as i64,
            max_re: ((self.max_re as i128) - d) as i64,
            ..*self
        }
    }

    /// Negative pixels move it upwards.
    pub fn move_down(&self, pixels: i64) -> (r: ComplexPlane)
        requires
            self.wf(),
            self.move_down_ok(pixels as int),
        ensures
            r == self.spec_move_down(pixels as int),
            r.min_im == self.min_im - pixels * self.spec_pixel_size(),
            r.max_im == self.max_im - pixels * self.spec_pixel_size(),
            r.wf(),
    {
        proof {
            self.lemma_pan_product_bounds(pixels as int);
        }
        let ps = self.pixel_size();
        let d: i128 = (pixels as i128) * (ps as i128);
        ComplexPlane {
            min_im: ((self.min_im as i128) - d) as i64,
            max_im: ((self.max_im as i128) - d) as i64,
            ..*self
        }
    }

    /// The plane zoomed by the rational factor `num / den` around its center:
    /// the new pixel size is `pixel_size * num / den`, the new spans are the
    /// pixel dimensions times the new pixel size, and the center is kept.
    /// `num < den` zooms in, `num > den` zooms out, `num == den` is a pure
    /// re-normalization of the aspect ratio.
    pub open spec fn spec_zoom(self, num: int, den: int) -> ComplexPlane {
        let nps = self.spec_pixel_size() * num / den;
        let s_re = self.width * nps;
        let s_im = self.height * nps;
        let nmin_re = tdiv(self.min_re + self.max_re - s_re, 2);
        let nmin_im = tdiv(self.min_im + self.max_im - s_im, 2);
        ComplexPlane {
            min_re: nmin_re as i64,
            max_re: (nmin_re + s_re) as i64,
            min_im: nmin_im as i64,
            max_im: (nmin_im + s_im) as i64,
            ..self
        }
    }

    /// Whether zooming by `num / den` keeps every quantity in range: the
    /// factor is a modest positive rational, the new pixel size is at least
    /// one unit, and the zoomed corners stay within the coordinate range.
    pub open spec fn zoom_ok(self, num: int, den: int) -> bool {
        let nps = self.spec_pixel_size() * num / den;
        let s_re = self.width * nps;
        let s_im = self.height * nps;
        let nmin_re = tdiv(self.min_re + self.max_re - s_re, 2);
        let nmin_im = tdiv(self.min_im + self.max_im - s_im, 2);
        &&& 1 <= num <= 65536
        &&& 1 <= den <= 65536
        &&& 1 <= nps
        &&& -COORD_LIMIT <= nmin_re
        &&& nmin_re + s_re <= COORD_LIMIT
        &&& -COORD_LIMIT <= nmin_im
        &&& nmin_im + s_im <= COORD_LIMIT
    }

    /// Intermediate bounds of the zoom computation, all comfortably inside
    /// `i128`.
    proof fn lemma_zoom_intermediate_bounds(self, num: int, den: int)
        requires
            self.wf(),
            1 <= num <= 65536,
            1 <= den <= 65536,
        ensures
            0 <= self.spec_pixel_size() * num <= 0x2000000000000000,
            0 <= self.spec_pixel_size() * num / den <= 0x2000000000000000,
            0 <= self.width * (self.spec_pixel_size() * num / den) <= 0x40000000000000000000,
            0 <= self.height * (self.spec_pixel_size() * num / den) <= 0x40000000000000000000,
    {
        self.lemma_pixel_size_bounds();
        let s = self.spec_pixel_size();
        let nps = s * num / den;
        assert(0 <= s * num <= 0x2000000000000000) by (nonlinear_arith)
            requires
                0 <= s <= 2 * COORD_LIMIT,
                1 <= num <= 65536,
        ;
        assert(0 <= nps <= 0x2000000000000000) by (nonlinear_arith)
            requires
                0 <= s * num <= 0x2000000000000000,
                1 <= den,
                nps == s * num / den,
        ;
        assert(0 <= self.width * nps <= 0x40000000000000000000) by (nonlinear_arith)
            requires
                0 <= nps <= 0x2000000000000000,
                0 < self.width <= DIM_LIMIT,
        ;
        assert(0 <= self.height * nps <= 0x40000000000000000000) by (nonlinear_arith)
            requires
                0 <= nps <= 0x2000000000000000,
                0 < self.height <= DIM_LIMIT,
        ;
    }

    /// True exactly when `zoom(num, den)` may be called.
    pub fn can_zoom(&self, num: u32, den: u32) -> (b: bool)
        requires
            self.wf(),
        ensures
            b == self.zoom_ok(num as int, den as int),
    {
        if !(1 <= num && num <= 65536 && 1 <= den && den <= 65536) {
            return false;
        }
        proof {
            self.lemma_zoom_intermediate_bounds(num as int, den as int);
        }
        let ps = self.pixel_size();
        let nps: i128 = (ps as i128) * (num as i128) / (den as i128);
        let s_re: i128 = (self.width as i128) * nps;
        let s_im: i128 = (self.height as i128) * nps;
        let nmin_re: i128 = ((self.min_re as i128) + (self.max_re as i128) - s_re) / 2;
        let nmin_im: i128 = ((self.min_im as i128) + (self.max_im as i128) - s_im) / 2;
        1 <= nps && -(COORD_LIMIT as i128) <= nmin_re && nmin_re + s_re <= (COORD_LIMIT as i128)
            && -(COORD_LIMIT as i128) <= nmin_im && nmin_im + s_im <= (COORD_LIMIT as i128)
    }

    /// Zooms in (`num < den`) or out (`num > den`) by the factor `num / den`.
    /// The center point remains stationary.
    pub fn zoom(&self, num: u32, den: u32) -> (r: ComplexPlane)
        requires
            self.wf(),
            self.zoom_ok(num as int, den as int),
        ensures
            r == self.spec_zoom(num as int, den as int),
            r.wf(),
    {
        proof {
            self.lemma_zoom_intermediate_bounds(num as int, den as int);
        }
        let ps = self.pixel_size();
        let nps: i128 = (ps as i128) * (num as i128) / (den as i128);
        let s_re: i128 = (self.width as i128) * nps;
        let s_im: i128 = (self.height as i128) * nps;
        let nmin_re: i128 = ((self.min_re as i128) + (self.max_re as i128) - s_re) / 2;
        let nmin_im: i128 = ((self.min_im as i128) + (self.max_im as i128) - s_im) / 2;
        proof {
            assert(1 <= self.width * (self.spec_pixel_size() * (num as int) / (den as int)))
                by (nonlinear_arith)
                requires
                    1 <= self.spec_pixel_size() * (num as int) / (den as int),
                    1 <= self.width,
            ;
            assert(1 <= self.height * (self.spec_pixel_size() * (num as int) / (den as int)))
                by (nonlinear_arith)
                requires
                    1 <= self.spec_pixel_size() * (num as int) / (den as int),
                    1 <= self.height,
            ;
        }
        ComplexPlane {
            min_re: nmin_re as i64,
            max_re: (nmin_re + s_re) as i64,
            min_im: nmin_im as i64,
            max_im: (nmin_im + s_im) as i64,
            ..*self
        }
    }

    /// The same plane with its pixel dimensions replaced.
    pub open spec fn spec_resized(self, width: u32, height: u32) -> ComplexPlane {
        ComplexPlane { width, height, ..self }
    }

    /// Resizing to the window and re-deriving the bounds by a factor-one zoom
    /// around the unchanged center, so that the plane's aspect always matches
    /// the new pixel aspect without distorting the fractal.
    pub open spec fn spec_fit_to_screen(self, width: u32, height: u32) -> ComplexPlane {
        self.spec_resized(width, height).spec_zoom(1, 1)
    }

    /// Whether `fit_to_screen(width, height)` may be called.
    pub open spec fn fit_ok(self, width: u32, height: u32) -> bool {
        &&& 0 < width <= DIM_LIMIT
        &&& 0 < height <= DIM_LIMIT
        &&& self.spec_resized(width, height).zoom_ok(1, 1)
    }

    /// True exactly when `fit_to_screen(width, height)` may be called.
    pub fn can_fit_to_screen(&self, width: u32, height: u32) -> (b: bool)
        requires
            self.wf(),
        ensures
            b == self.fit_ok(width, height),
    {
        if !(1 <= width && width <= DIM_LIMIT && 1 <= height && height <= DIM_LIMIT) {
            return false;
        }
        let resized = ComplexPlane { width, height, ..*self };
        resized.can_zoom(1, 1)
    }

    /// Resize the plane to fit into the window without stretching it in one
    /// direction or the other; returns the adjusted plane and its pixel size.
    pub fn fit_to_screen(&self, width: u32, height: u32) -> (r: (ComplexPlane, i64))
        requires
            self.wf(),
            self.fit_ok(width, height),
        ensures
            r.0 == self.spec_fit_to_screen(width, height),
            r.1 == r.0.spec_pixel_size(),
            r.0.wf(),
            r.0.width == width,
            r.0.height == height,
            r.0.max_re - r.0.min_re == width * r.1,
            r.0.max_im - r.0.min_im == height * r.1,
    {
        let resized = ComplexPlane { width, height, ..*self };
        proof {
            resized.lemma_zoom_normalizes(1, 1);
        }
        let plane = resized.zoom(1, 1);
        let ps = plane.pixel_size();
        (plane, ps)
    }

    /// A zoomed plane is normalized: its pixel size is exactly the requested
    /// one, and each span is exactly the pixel dimension times the pixel size
    /// (no dimension is binding more than the other).
    pub proof fn lemma_zoom_normalizes(self, num: int, den: int)
        requires
            self.wf(),
            self.zoom_ok(num, den),
        ensures
            ({
                let nps = self.spec_pixel_size() * num / den;
                let q = self.spec_zoom(num, den);
                &&& q.spec_pixel_size() == nps
                &&& q.max_re - q.min_re == self.width * nps
                &&& q.max_im - q.min_im == self.height * nps
                &&& q.width == self.width
                &&& q.height == self.height
                &&& q.wf()
            }),
    {
        self.lemma_zoom_intermediate_bounds(num, den);
        let nps = self.spec_pixel_size() * num / den;
        let w = self.width as int;
        let h = self.height as int;
        let s_re = w * nps;
        let s_im = h * nps;
        let q = self.spec_zoom(num, den);
        assert(1 <= s_re && 1 <= s_im) by (nonlinear_arith)
            requires
                1 <= nps,
                1 <= w,
                1 <= h,
                s_re == w * nps,
                s_im == h * nps,
        ;
        let nmin_re = tdiv(self.min_re + self.max_re - s_re, 2);
        let nmin_im = tdiv(self.min_im + self.max_im - s_im, 2);
        assert(q.min_re == nmin_re && q.max_re == nmin_re + s_re);
        assert(q.min_im == nmin_im && q.max_im == nmin_im + s_im);
        lemma_div_by_multiple(nps, w);
        lemma_div_by_multiple(nps, h);
        assert(nps * w == w * nps && nps * h == h * nps) by (nonlinear_arith);
        assert(q.spec_pixel_size() == nps);
    }

    /// A factor-one zoom is idempotent: it is a pure re-normalization of the
    /// aspect ratio, so applying it twice yields exactly the bounds that one
    /// application yields.
    pub proof fn lemma_zoom_one_idempotent(self)
        requires
            self.wf(),
            self.zoom_ok(1, 1),
        ensures
            self.spec_zoom(1, 1).spec_zoom(1, 1) == self.spec_zoom(1, 1),
    {
        self.lemma_zoom_normalizes(1, 1);
        let ps = self.spec_pixel_size();
        let nps = ps * 1 / 1;
        assert(nps == ps);
        let w = self.width as int;
        let h = self.height as int;
        let q = self.spec_zoom(1, 1);
        assert(q.spec_pixel_size() == ps);
        let s_re = w * ps;
        let s_im = h * ps;
        assert(q.max_re == q.min_re + s_re && q.max_im == q.min_im + s_im);
        let r = q.spec_zoom(1, 1);
        assert(q.min_re + q.max_re - s_re == 2 * (q.min_re as int));
        assert(q.min_im + q.max_im - s_im == 2 * (q.min_im as int));
        lemma_div_multiples_vanish(q.min_re as int, 2);
        lemma_div_multiples_vanish(q.min_im as int, 2);
        assert(tdiv(2 * (q.min_re as int), 2) == q.min_re as int);
        assert(tdiv(2 * (q.min_im as int), 2) == q.min_im as int);
        assert(r =~= q);
    }

    /// Round-trip law: on a normalized plane whose pixel size is a multiple
    /// of four units, zooming in by one half and then out by two restores the
    /// original bounds exactly (every division in the two zooms is exact).
    pub proof fn lemma_zoom_half_round_trip(self)
        requires
            self.wf(),
            self.zoom_ok(1, 2),
            self.max_re - self.min_re == self.width * self.spec_pixel_size(),
            self.max_im - self.min_im == self.height * self.spec_pixel_size(),
            self.spec_pixel_size() % 4 == 0,
        ensures
            self.spec_zoom(1, 2).spec_zoom(2, 1) == self,
    {
        self.lemma_zoom_normalizes(1, 2);
        let ps = self.spec_pixel_size();
        let k = ps / 4;
        assert(ps == 4 * k);
        let w = self.width as int;
        let h = self.height as int;
        // first zoom: the new pixel size is exactly half of the old one
        lemma_div_multiples_vanish(2 * k, 2);
        assert(ps * 1 == ps);
        assert(ps / 2 == 2 * k);
        let q = self.spec_zoom(1, 2);
        assert(q.spec_pixel_size() == 2 * k);
        // the first zoom's corner arithmetic is exact
        assert(w * ps == 4 * (w * k) && w * (2 * k) == 2 * (w * k)) by (nonlinear_arith)
            requires
                ps == 4 * k,
        ;
        assert(h * ps == 4 * (h * k) && h * (2 * k) == 2 * (h * k)) by (nonlinear_arith)
            requires
                ps == 4 * k,
        ;
        assert(self.min_re + self.max_re - w * (2 * k) == 2 * (self.min_re + w * k));
        assert(self.min_im + self.max_im - h * (2 * k) == 2 * (self.min_im + h * k));
        lemma_div_multiples_vanish(self.min_re + w * k, 2);
        lemma_div_multiples_vanish(self.min_im + h * k, 2);
        assert(0 <= w * k && 0 <= h * k) by (nonlinear_arith)
            requires
                0 <= k,
                0 <= w,
                0 <= h,
        ;
        assert(q.min_re == self.min_re + w * k && q.max_re == self.min_re + 3 * (w * k));
        assert(q.min_im == self.min_im + h * k && q.max_im == self.min_im + 3 * (h * k));
        // second zoom: back to the original pixel size
        let r = q.spec_zoom(2, 1);
        assert((2 * k) * 2 / 1 == 4 * k);
        assert(q.min_re + q.max_re - w * (4 * k) == 2 * (self.min_re as int));
        assert(q.min_im + q.max_im - h * (4 * k) == 2 * (self.min_im as int));
        lemma_div_multiples_vanish(self.min_re as int, 2);
        lemma_div_multiples_vanish(self.min_im as int, 2);
        assert(r.min_re == self.min_re && r.max_re == self.max_re);
        assert(r.min_im == self.min_im && r.max_im == self.max_im);
        assert(r =~= self);
    }

    /// The pixel size of a well-formed plane is non-negative and no larger
    /// than the larger span.
    pub proof fn lemma_pixel_size_bounds(self)
        requires
            self.wf(),
        ensures
            0 <= self.spec_pixel_size() <= 2 * COORD_LIMIT,
    {
        let sre = self.max_re - self.min_re;
        let sim = self.max_im - self.min_im;
        let w = self.width as int;
        let h = self.height as int;
        assert(0 <= sre / w <= sre) by (nonlinear_arith)
            requires
                0 < sre,
                1 <= w,
        ;
        assert(0 <= sim / h <= sim) by (nonlinear_arith)
            requires
                0 < sim,
                1 <= h,
        ;
    }

    /// Translation is reversible: panning left by `pixels` pixel widths and
    /// then by `-pixels` restores the original bounds exactly, because a
    /// translation never changes the spans and hence never changes the pixel
    /// size the second pan is measured in.
    pub proof fn lemma_move_left_reversible(self, pixels: int)
        requires
            self.wf(),
            self.move_left_ok(pixels),
        ensures
            self.spec_move_left(pixels).spec_move_left(-pixels) == self,
    {
        let d = pixels * self.spec_pixel_size();
        let q = self.spec_move_left(pixels);
        assert(q.min_re == self.min_re - d && q.max_re == self.max_re - d);
        assert(q.spec_pixel_size() == self.spec_pixel_size());
        assert((-pixels) * q.spec_pixel_size() == -d) by (nonlinear_arith)
            requires
                q.spec_pixel_size() == self.spec_pixel_size(),
                d == pixels * self.spec_pixel_size(),
        ;
        let r = q.spec_move_left(-pixels);
        assert(r.min_re == self.min_re && r.max_re == self.max_re);
        assert(r =~= self);
    }

    /// Translation is reversible along the imaginary axis as well: panning
    /// down by `pixels` pixel widths and then by `-pixels` restores the
    /// original bounds exactly.
    pub proof fn lemma_move_down_reversible(self, pixels: int)
        requires
            self.wf(),
            self.move_down_ok(pixels),
        ensures
            self.spec_move_down(pixels).spec_move_down(-pixels) == self,
    {
        let d = pixels * self.spec_pixel_size();
        let q = self.spec_move_down(pixels);
        assert(q.min_im == self.min_im - d && q.max_im == self.max_im - d);
        assert(q.spec_pixel_size() == self.spec_pixel_size());
        assert((-pixels) * q.spec_pixel_size() == -d) by (nonlinear_arith)
            requires
                q.spec_pixel_size() == self.spec_pixel_size(),
                d == pixels * self.spec_pixel_size(),
        ;
        let r = q.spec_move_down(-pixels);
        assert(r.min_im == self.min_im && r.max_im == self.max_im);
        assert(r =~= self);
    }
}

impl Default for ComplexPlane {
    /// The canonical framing: real range about [-2.0, 0.8], imaginary range
    /// about [-1.2, 1.2] in fixed-point units, at a 1000 x 1000 pixel target,
    /// so the whole set is visible unstretched.
    fn default() -> (r: Self)
        ensures
            r == (ComplexPlane {
                min_re: -33554432i64,
                min_im: -20132659i64,
                max_re: 13421773i64,
                max_im: 20132659i64,
                width: 1000u32,
                height: 1000u32,
            }),
            r.wf(),
    {
        ComplexPlane {
            min_re: -33554432,
            min_im: -20132659,
            max_re: 13421773,
            max_im: 20132659,
            width: 1000,
            height: 1000,
        }
    }
}

} // verus!
