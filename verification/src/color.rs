//! Iteration-count-to-color mapping.
//!
//! A resolved count is first squashed by the monotonically saturating
//! transform `percent = 1 - 1 / (count / 10 + 1)`, so hue differences are
//! most pronounced near the set boundary; the hue `270 * (1 - percent)`
//! degrees (which reduces exactly to `2700 / (count + 10)`) is then taken at
//! full saturation and lightness `0.7` and converted to RGB.  All arithmetic
//! is exact integer arithmetic: hue in millidegrees, channels in per-mille,
//! so the same count always yields the same bytes.

use vstd::prelude::*;

verus! {

/// The hue for an iteration count, in millidegrees: `270000 * 10 / (n + 10)`,
/// always in `(0, 270000]`.
pub open spec fn spec_hue(n: int) -> int {
    2700000int / (n + 10)
}

/// The raw HSL channel triple for a hue `h` in millidegrees, in per-mille
/// units, before the lightness offset: chroma is `600` (saturation one,
/// lightness `0.7`), and the secondary channel is
/// `600 * (1 - |(h / 60) mod 2 - 1|)`.
pub open spec fn spec_channels(h: int) -> (int, int, int) {
    let sector = h / 60000;
    let hh = h % 120000;
    let frac = if hh >= 60000 {
        hh - 60000
    } else {
        60000 - hh
    };
    let x = 600 * (60000 - frac) / 60000;
    if sector == 0 {
        (600, x, 0)
    } else if sector == 1 {
        (x, 600, 0)
    } else if sector == 2 {
        (0, 600, x)
    } else if sector == 3 {
        (0, x, 600)
    } else {
        (x, 0, 600)
    }
}

/// A per-mille channel value plus the lightness offset `400`, scaled to a
/// byte: `(v + 400) * 255 / 1000`.
pub open spec fn spec_byte(v: int) -> int {
    (v + 400) * 255 / 1000
}

/// The RGB bytes for an iteration count.
pub open spec fn spec_color(n: int) -> (int, int, int) {
    let ch = spec_channels(spec_hue(n));
    (spec_byte(ch.0), spec_byte(ch.1), spec_byte(ch.2))
}

/// Deterministic coloring: the color of a resolved cell is a function of its
/// iteration count alone, so two cells with identical counts receive
/// identical RGB output.
pub proof fn lemma_color_deterministic(n1: int, n2: int)
    requires
        n1 == n2,
    ensures
        spec_color(n1) == spec_color(n2),
{
}

/// Map a resolved iteration count to its RGB color.
pub fn color_for(iter_count: usize) -> (rgb: (u8, u8, u8))
    requires
        iter_count <= usize::MAX - 10,
    ensures
        (rgb.0 as int, rgb.1 as int, rgb.2 as int) == spec_color(iter_count as int),
{
    let n: u64 = iter_count as u64;
    let h: u64 = 2700000 / (n + 10);
    assert(h == spec_hue(iter_count as int));
    assert(0 <= h <= 270000) by {
        vstd::arithmetic::div_mod::lemma_div_is_ordered_by_denominator(
            2700000,
            10,
            iter_count as int + 10,
        );
    };
    let sector: u64 = h / 60000;
    let hh: u64 = h % 120000;
    let frac: u64 = if hh >= 60000 {
        hh - 60000
    } else {
        60000 - hh
    };
    let x: u64 = 600 * (60000 - frac) / 60000;
    assert(x <= 600) by {
        assert(600 * (60000int - (frac as int)) / 60000 <= 600) by (nonlinear_arith)
            requires
                0 <= frac <= 60000,
        ;
    };
    let ch: (u64, u64, u64) = if sector == 0 {
        (600, x, 0)
    } else if sector == 1 {
        (x, 600, 0)
    } else if sector == 2 {
        (0, 600, x)
    } else if sector == 3 {
        (0, x, 600)
    } else {
        (x, 0, 600)
    };
    let r: u64 = (ch.0 + 400) * 255 / 1000;
    let g: u64 = (ch.1 + 400) * 255 / 1000;
    let b: u64 = (ch.2 + 400) * 255 / 1000;
    (r as u8, g as u8, b as u8)
}

} // verus!
