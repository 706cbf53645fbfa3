//! A verified escape-time engine for the Mandelbrot set.
//!
//! Every quantity of the complex plane is held in fixed-point form: an `i64`
//! that counts units of `1 / SCALE`.  The plane model, the per-pixel
//! escape-time iteration and the color mapping are all exact integer
//! computations with proved contracts; a thin unverified front end owns the
//! window, the GPU surface and the event loop.

use vstd::prelude::*;

pub mod cell;
pub mod color;
pub mod complex_plane;
pub mod grid;

verus! {

/// Fixed-point scale: every plane coordinate, iterate and pixel size is an
/// integer count of units of `1 / SCALE` (`SCALE` is `2^24`).
pub const SCALE: i64 = 16777216;

/// Largest magnitude a plane corner coordinate may take (`2^40`), i.e. about
/// sixty-five thousand plane units: far beyond the region where the set lives.
pub const COORD_LIMIT: i64 = 1099511627776;

/// Largest pixel dimension a plane may be given (`2^15`).
pub const DIM_LIMIT: u32 = 32768;

/// Truncating division (rounding toward zero) for a positive divisor: the
/// semantics of Rust's `/` on signed integers, usable on mathematical integers.
pub open spec fn tdiv(a: int, b: int) -> int {
    if a >= 0 {
        a / b
    } else {
        -((-a) / b)
    }
}

} // verus!
