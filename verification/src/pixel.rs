//! The pixel buffer and the arithmetic of painting into it. A pixel holds
//! blue, green, red and alpha; an opacity of 64 is full.

use crate::style::Rgb;
use vstd::prelude::*;

verus! {

/// Full opacity, in the unit of the opacities that shapes are painted with.
pub const OPAQUE: u8 = 64;

/// Coverage up to this value draws nothing.
pub const COVERAGE_CUTOFF: u8 = 50;

/// One pixel: blue, green, red, alpha.
#[derive(Clone, Copy, Debug, PartialEq, Eq, Structural)]
pub struct Pixel {
    pub b: u8,
    pub g: u8,
    pub r: u8,
    pub a: u8,
}

/// The colour that the panel is filled with, and the alpha of a fully covered
/// pixel of it.
#[derive(Clone, Copy, Debug, PartialEq, Eq, Structural)]
pub struct Tint {
    pub blue: u8,
    pub green: u8,
    pub red: u8,
    pub alpha_multiplier: u8,
}

/// Whether `r` is the integer square root of `n`.
pub open spec fn is_sqrt(n: nat, r: nat) -> bool {
    r * r <= n && n < (r + 1) * (r + 1)
}

/// The integer square root of `n`: the largest number whose square is at
/// most `n`.
pub open spec fn int_sqrt(n: nat) -> nat {
    choose|r: nat| is_sqrt(n, r)
}

/// A number has at most one integer square root.
pub proof fn lemma_sqrt_unique(n: nat, r1: nat, r2: nat)
    requires
        is_sqrt(n, r1),
        is_sqrt(n, r2),
    ensures
        r1 == r2,
{
    if r1 < r2 {
        assert((r1 + 1) * (r1 + 1) <= r2 * r2) by (nonlinear_arith)
            requires
                r1 + 1 <= r2,
        ;
    }
    if r2 < r1 {
        assert((r2 + 1) * (r2 + 1) <= r1 * r1) by (nonlinear_arith)
            requires
                r2 + 1 <= r1,
        ;
    }
}

/// The integer square root of `n`.
pub fn integer_sqrt(n: u128) -> (r: u64)
    requires
        n < 0x10_0000_0000_0000_0000_0000,
    ensures
        is_sqrt(n as nat, r as nat),
        r == int_sqrt(n as nat),
        r < 0x400_0000_0000,
{
    let mut lo: u128 = 0;
    let mut hi: u128 = 0x400_0000_0000;
    proof {
        assert(0x400_0000_0000 * 0x400_0000_0000 == 0x10_0000_0000_0000_0000_0000int);
    }
    while hi - lo > 1
        invariant
            lo < hi <= 0x400_0000_0000,
            lo * lo <= n,
            n < hi * hi,
        decreases hi - lo,
    {
        let mid: u128 = lo + (hi - lo) / 2;
        assert(mid * mid < 0x10_0000_0000_0000_0000_0000) by (nonlinear_arith)
            requires
                0 <= mid < 0x400_0000_0000,
        ;
        if mid * mid <= n {
            lo = mid;
        } else {
            hi = mid;
        }
    }
    proof {
        assert(hi == lo + 1);
        assert(is_sqrt(n as nat, lo as nat));
        lemma_sqrt_unique(n as nat, lo as nat, int_sqrt(n as nat));
    }
    lo as u64
}

/// How far the coordinate `p` lies inside the band of width `radius` at either
/// end of `0..extent`, measured from the inner edge of the band; 0 between the
/// bands.
pub open spec fn corner_offset(p: int, extent: int, radius: int) -> int {
    if p < radius {
        radius - p
    } else if p > extent - radius {
        p - (extent - radius)
    } else {
        0
    }
}

/// The opacity at distance `distance` from the centre of a corner of radius
/// `radius`, all in layout units: full up to half a pixel inside the arc, none
/// from half a pixel outside it, and falling by one step per unit between.
pub open spec fn band_alpha(radius: int, distance: int) -> int {
    if distance <= radius - 32 {
        64
    } else if distance >= radius + 32 {
        0
    } else {
        radius + 32 - distance
    }
}

/// The opacity of a rounded rectangle of `width` by `height` with corners of
/// radius `radius` at the point `(x, y)`, all in layout units. It is full
/// wherever the point is outside the corner bands in one direction at least;
/// in a corner it depends on the distance from the centre of the corner's arc.
pub open spec fn rounded_rect_alpha(x: int, y: int, width: int, height: int, radius: int) -> int {
    let cx = corner_offset(x, width, radius);
    let cy = corner_offset(y, height, radius);
    if cx == 0 || cy == 0 {
        64
    } else {
        band_alpha(radius, int_sqrt((cx * cx + cy * cy) as nat) as int)
    }
}

/// The opacity of a rounded rectangle is between none and full.
pub proof fn lemma_alpha_range(x: int, y: int, width: int, height: int, radius: int)
    ensures
        0 <= rounded_rect_alpha(x, y, width, height, radius) <= 64,
{
}

/// How far `p` lies inside a corner band of `0..extent`.
fn corner_offset_of(p: u64, extent: u64, radius: u64) -> (c: u64)
    requires
        p <= 0x100_0000_0000,
        extent <= 0x100_0000_0000,
        radius <= 0x1_0000_0000,
    ensures
        c == corner_offset(p as int, extent as int, radius as int),
        c <= 0x200_0000_0000,
{
    if p < radius {
        radius - p
    } else if p as i64 > extent as i64 - radius as i64 {
        (p as i64 - (extent as i64 - radius as i64)) as u64
    } else {
        0
    }
}

/// The opacity, from 0 to 64, of a rounded rectangle of `width` by `height`
/// with corners of radius `radius` at the point `(x, y)`, all in layout units.
pub fn calculate_rounded_rect_alpha(x: u64, y: u64, width: u64, height: u64, radius: u32) -> (alpha:
    u8)
    requires
        x <= 0x100_0000_0000,
        y <= 0x100_0000_0000,
        width <= 0x100_0000_0000,
        height <= 0x100_0000_0000,
    ensures
        alpha == rounded_rect_alpha(
            x as int,
            y as int,
            width as int,
            height as int,
            radius as int,
        ),
        alpha <= OPAQUE,
{
    let cx = corner_offset_of(x, width, radius as u64);
    let cy = corner_offset_of(y, height, radius as u64);
    if cx == 0 || cy == 0 {
        return OPAQUE;
    }
    assert(cx * cx <= 0x200_0000_0000 * 0x200_0000_0000) by (nonlinear_arith)
        requires
            0 <= cx <= 0x200_0000_0000,
    ;
    assert(cy * cy <= 0x200_0000_0000 * 0x200_0000_0000) by (nonlinear_arith)
        requires
            0 <= cy <= 0x200_0000_0000,
    ;
    assert(0x200_0000_0000 * 0x200_0000_0000 == 0x4_0000_0000_0000_0000_0000int);
    let sum: u128 = cx as u128 * cx as u128 + cy as u128 * cy as u128;
    let distance: i64 = integer_sqrt(sum) as i64;
    let r: i64 = radius as i64;
    if distance <= r - 32 {
        OPAQUE
    } else if distance >= r + 32 {
        0
    } else {
        (r + 32 - distance) as u8
    }
}

/// One channel of `fg` over `bg` at the opacity `alpha` of `full`.
pub open spec fn blend(bg: u8, fg: u8, alpha: int, full: int) -> int {
    (bg * (full - alpha) + fg * alpha) / full
}

/// One channel of `fg` over `bg` at the opacity `alpha` of `full`:
/// `bg * (1 - a) + fg * a` for `a = alpha / full`, rounded down.
pub fn blend_channel(bg: u8, fg: u8, alpha: u8, full: u8) -> (out: u8)
    requires
        0 < full,
        alpha <= full,
    ensures
        out == blend(bg, fg, alpha as int, full as int),
        bg <= fg ==> bg <= out <= fg,
        fg <= bg ==> fg <= out <= bg,
{
    let rest: u32 = (full - alpha) as u32;
    assert(bg * rest <= 255 * 255) by (nonlinear_arith)
        requires
            0 <= bg <= 255,
            0 <= rest <= 255,
    ;
    assert(fg * alpha <= 255 * 255) by (nonlinear_arith)
        requires
            0 <= fg <= 255,
            0 <= alpha <= 255,
    ;
    let mixed: u32 = bg as u32 * rest + fg as u32 * alpha as u32;
    proof {
        let lo: int = if bg <= fg {
            bg as int
        } else {
            fg as int
        };
        let hi: int = if bg <= fg {
            fg as int
        } else {
            bg as int
        };
        assert(lo * full <= mixed <= hi * full) by (nonlinear_arith)
            requires
                mixed == bg * rest + fg * alpha,
                rest + alpha == full,
                0 <= rest,
                0 <= alpha,
                lo <= bg <= hi,
                lo <= fg <= hi,
        ;
        assert(lo <= mixed as int / full as int <= hi) by (nonlinear_arith)
            requires
                lo * full <= mixed <= hi * full,
                full > 0,
        ;
    }
    (mixed / full as u32) as u8
}

/// The alpha of a pixel of the panel's fill that is covered at `alpha` of 64.
pub open spec fn fill_alpha(alpha: int, multiplier: u8) -> int {
    alpha * multiplier / 64
}

/// What the panel's fill makes of the pixel `old` where the rounded rectangle
/// has the opacity `alpha`: the tint with its alpha scaled where the opacity is
/// positive, and `old` elsewhere.
pub open spec fn filled(old: Pixel, alpha: int, tint: Tint) -> Pixel {
    if alpha > 0 {
        Pixel {
            b: tint.blue,
            g: tint.green,
            r: tint.red,
            a: fill_alpha(alpha, tint.alpha_multiplier) as u8,
        }
    } else {
        old
    }
}

/// What a shape of the colour `color` makes of the pixel `old` where it has
/// the opacity `alpha` of 64: the colour over the pixel; the pixel's alpha
/// stays.
pub open spec fn tinted(old: Pixel, alpha: int, color: Rgb) -> Pixel {
    if alpha > 0 {
        Pixel {
            b: blend(old.b, color.b, alpha, 64) as u8,
            g: blend(old.g, color.g, alpha, 64) as u8,
            r: blend(old.r, color.r, alpha, 64) as u8,
            a: old.a,
        }
    } else {
        old
    }
}

/// What a glyph of the colour `color` makes of the pixel `old` that it covers
/// at `coverage` of 255. Coverage up to the cutoff leaves the pixel as it is.
/// Above it the colour is laid over the pixel; where `accumulate` is set, the
/// coverage is added to the pixel's alpha, up to 255.
pub open spec fn inked(old: Pixel, color: Rgb, coverage: u8, accumulate: bool) -> Pixel {
    if coverage > COVERAGE_CUTOFF {
        Pixel {
            b: blend(old.b, color.b, coverage as int, 255) as u8,
            g: blend(old.g, color.g, coverage as int, 255) as u8,
            r: blend(old.r, color.r, coverage as int, 255) as u8,
            a: if !accumulate {
                old.a
            } else if old.a + coverage > 255 {
                255
            } else {
                (old.a + coverage) as u8
            },
        }
    } else {
        old
    }
}

/// What the panel's fill makes of a pixel.
pub fn fill_pixel(old: Pixel, alpha: u8, tint: Tint) -> (p: Pixel)
    requires
        alpha <= OPAQUE,
    ensures
        p == filled(old, alpha as int, tint),
{
    if alpha > 0 {
        assert(alpha * tint.alpha_multiplier <= 64 * 255) by (nonlinear_arith)
            requires
                0 <= alpha <= 64,
                0 <= tint.alpha_multiplier <= 255,
        ;
        let scaled: u32 = alpha as u32 * tint.alpha_multiplier as u32 / 64;
        Pixel { b: tint.blue, g: tint.green, r: tint.red, a: scaled as u8 }
    } else {
        old
    }
}

/// What a shape of the colour `color` makes of a pixel.
pub fn tint_pixel(old: Pixel, alpha: u8, color: Rgb) -> (p: Pixel)
    requires
        alpha <= OPAQUE,
    ensures
        p == tinted(old, alpha as int, color),
{
    if alpha > 0 {
        Pixel {
            b: blend_channel(old.b, color.b, alpha, OPAQUE),
            g: blend_channel(old.g, color.g, alpha, OPAQUE),
            r: blend_channel(old.r, color.r, alpha, OPAQUE),
            a: old.a,
        }
    } else {
        old
    }
}

/// What a glyph of the colour `color` makes of a pixel.
pub fn ink_pixel(old: Pixel, color: Rgb, coverage: u8, accumulate: bool) -> (p: Pixel)
    ensures
        p == inked(old, color, coverage, accumulate),
{
    if coverage > COVERAGE_CUTOFF {
        Pixel {
            b: blend_channel(old.b, color.b, coverage, 255),
            g: blend_channel(old.g, color.g, coverage, 255),
            r: blend_channel(old.r, color.r, coverage, 255),
            a: if !accumulate {
                old.a
            } else {
                old.a.saturating_add(coverage)
            },
        }
    } else {
        old
    }
}

} // verus!
