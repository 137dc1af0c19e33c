//! The pixel buffer: a rectangle of pixels, row by row from the top.

use crate::pixel::{
    calculate_rounded_rect_alpha, fill_pixel, filled, ink_pixel, inked, rounded_rect_alpha,
    tint_pixel, tinted, Pixel, Tint,
};
use crate::style::Rgb;
use vstd::prelude::*;

verus! {

/// The largest number of bytes that a buffer may take.
pub const MAX_BUFFER_BYTES: u64 = 0x7FFF_FFFF;

/// The largest width and height, in layout units, of a shape to paint.
pub const SHAPE_LIMIT: u64 = 0x100_0000_0000;

/// The mathematical value of a [`PixelBuffer`]: its size, and its pixels row
/// by row, so that the pixel in column `x` of row `y` is `pixels[y * width + x]`.
pub struct BufferModel {
    pub width: nat,
    pub height: nat,
    pub pixels: Seq<Pixel>,
}

/// A pixel that shows nothing.
pub open spec fn transparent() -> Pixel {
    Pixel { b: 0, g: 0, r: 0, a: 0 }
}

/// A buffer of `width` by `height` pixels. It owns its pixels, and every
/// access to them is checked against its size.
pub struct PixelBuffer {
    width: u32,
    height: u32,
    data: Vec<Pixel>,
}

/// The opacity of the fill of a panel of `width` by `height` pixels, with
/// corners of radius `radius` in layout units, at the pixel with the index
/// `j`.
pub open spec fn panel_alpha(j: int, width: nat, height: nat, radius: u32) -> int {
    rounded_rect_alpha(
        (j % width as int) * 64,
        (j / width as int) * 64,
        (width * 64) as int,
        (height * 64) as int,
        radius as int,
    )
}

/// The opacity, at the pixel with the index `j` of a buffer `width` pixels
/// wide, of a rounded rectangle of `shape_width` by `shape_height` layout units
/// whose top left corner is at the pixel `(left, top)`. Outside the whole
/// pixels that the rectangle spans it is none.
pub open spec fn shape_alpha(
    j: int,
    width: nat,
    left: u32,
    top: u32,
    shape_width: u64,
    shape_height: u64,
    radius: u32,
) -> int {
    let x = j % width as int;
    let y = j / width as int;
    if left <= x && x - left < shape_width / 64 && top <= y && y - top < shape_height / 64 {
        rounded_rect_alpha(
            (x - left) * 64,
            (y - top) * 64,
            shape_width as int,
            shape_height as int,
            radius as int,
        )
    } else {
        0
    }
}

impl View for PixelBuffer {
    type V = BufferModel;

    closed spec fn view(&self) -> BufferModel {
        BufferModel { width: self.width as nat, height: self.height as nat, pixels: self.data@ }
    }
}

impl PixelBuffer {
    /// Whether the buffer holds as many pixels as its size says, and no more
    /// than `MAX_BUFFER_BYTES` bytes of them. Every buffer that `new` makes
    /// does, and no method changes that.
    pub closed spec fn wf(&self) -> bool {
        &&& self.data@.len() == self.width * self.height
        &&& self.width * self.height * 4 <= MAX_BUFFER_BYTES
    }

    /// A buffer of `width` by `height` transparent pixels; `None` where it
    /// would take more than `MAX_BUFFER_BYTES` bytes, at four bytes a pixel.
    pub fn new(width: u32, height: u32) -> (buffer: Option<PixelBuffer>)
        ensures
            buffer is None <==> width * height * 4 > MAX_BUFFER_BYTES,
            buffer matches Some(b) ==> b.wf() && b@ == (BufferModel {
                width: width as nat,
                height: height as nat,
                pixels: Seq::new((width * height) as nat, |j: int| transparent()),
            }),
    {
        assert(width * height <= 0xFFFF_FFFF * 0xFFFF_FFFF) by (nonlinear_arith)
            requires
                0 <= width <= 0xFFFF_FFFF,
                0 <= height <= 0xFFFF_FFFF,
        ;
        let count: u64 = width as u64 * height as u64;
        if count > MAX_BUFFER_BYTES / 4 {
            return None;
        }
        let mut data: Vec<Pixel> = Vec::new();
        let mut j: u64 = 0;
        while j < count
            invariant
                j <= count,
                data@ == Seq::new(j as nat, |k: int| transparent()),
            decreases count - j,
        {
            data.push(Pixel { b: 0, g: 0, r: 0, a: 0 });
            j += 1;
            proof {
                assert(data@ =~= Seq::new(j as nat, |k: int| transparent()));
            }
        }
        Some(PixelBuffer { width, height, data })
    }

    /// A buffer holds one pixel for each column of each row, and no more than
    /// `MAX_BUFFER_BYTES` bytes of them.
    pub proof fn lemma_size(&self)
        requires
            self.wf(),
        ensures
            self@.pixels.len() == self@.width * self@.height,
            self@.width * self@.height * 4 <= MAX_BUFFER_BYTES,
    {
    }

    /// The width in pixels.
    pub fn width(&self) -> (w: u32)
        ensures
            w == self@.width,
    {
        self.width
    }

    /// The height in pixels.
    pub fn height(&self) -> (h: u32)
        ensures
            h == self@.height,
    {
        self.height
    }

    /// The number of pixels, which is the width times the height.
    pub fn len(&self) -> (n: usize)
        requires
            self.wf(),
        ensures
            n == self@.pixels.len(),
            n == self@.width * self@.height,
    {
        self.data.len()
    }

    /// The pixel in column `x` of row `y`, if there is one.
    pub fn get(&self, x: u32, y: u32) -> (p: Option<Pixel>)
        requires
            self.wf(),
        ensures
            p is Some <==> x < self@.width && y < self@.height,
            p matches Some(v) ==> v == self@.pixels[y * self@.width + x],
    {
        if x < self.width && y < self.height {
            assert(y * self.width + x < self.width * self.height) by (nonlinear_arith)
                requires
                    0 <= x < self.width,
                    0 <= y < self.height,
            ;
            let j: usize = (y as u64 * self.width as u64 + x as u64) as usize;
            Some(self.data[j])
        } else {
            None
        }
    }

    /// Makes every pixel transparent.
    pub fn clear(&mut self)
        requires
            old(self).wf(),
        ensures
            final(self).wf(),
            final(self)@.width == old(self)@.width,
            final(self)@.height == old(self)@.height,
            final(self)@.pixels == Seq::new(old(self)@.pixels.len(), |j: int| transparent()),
    {
        let n = self.data.len();
        let mut j: usize = 0;
        while j < n
            invariant
                j <= n,
                n == self.data@.len(),
                self.width == old(self).width,
                self.height == old(self).height,
                self.data@.len() == old(self).data@.len(),
                forall|k: int| 0 <= k < j ==> self.data@[k] == transparent(),
            decreases n - j,
        {
            self.data.set(j, Pixel { b: 0, g: 0, r: 0, a: 0 });
            j += 1;
        }
        proof {
            assert(self.data@ =~= Seq::new(old(self)@.pixels.len(), |j: int| transparent()));
        }
    }

    /// Fills the panel: a rounded rectangle as large as the buffer, with
    /// corners of radius `radius` in layout units. A pixel inside it takes the
    /// tint's colour and, as its alpha, the tint's alpha multiplier scaled by
    /// the opacity of the rectangle there; a pixel outside stays as it is.
    pub fn paint_background(&mut self, radius: u32, tint: Tint)
        requires
            old(self).wf(),
        ensures
            final(self).wf(),
            final(self)@.width == old(self)@.width,
            final(self)@.height == old(self)@.height,
            final(self)@.pixels.len() == old(self)@.pixels.len(),
            forall|j: int|
                0 <= j < old(self)@.pixels.len() ==> #[trigger] final(self)@.pixels[j] == filled(
                    old(self)@.pixels[j],
                    panel_alpha(j, old(self)@.width, old(self)@.height, radius),
                    tint,
                ),
    {
        let n = self.data.len();
        let w = self.width;
        let h = self.height;
        let mut j: usize = 0;
        while j < n
            invariant
                j <= n,
                n == self.data@.len(),
                n == w * h,
                n * 4 <= MAX_BUFFER_BYTES,
                w == self.width == old(self).width,
                h == self.height == old(self).height,
                self.data@.len() == old(self).data@.len(),
                forall|k: int|
                    0 <= k < j ==> #[trigger] self.data@[k] == filled(
                        old(self).data@[k],
                        panel_alpha(k, w as nat, h as nat, radius),
                        tint,
                    ),
                forall|k: int| j <= k < n ==> #[trigger] self.data@[k] == old(self).data@[k],
            decreases n - j,
        {
            assert(w > 0) by (nonlinear_arith)
                requires
                    j < w * h,
                    w >= 0,
            ;
            let x: u64 = (j % w as usize) as u64;
            let y: u64 = (j / w as usize) as u64;
            assert(y <= j) by (nonlinear_arith)
                requires
                    y == j as int / w as int,
                    w > 0,
                    j >= 0,
            ;
            let alpha = calculate_rounded_rect_alpha(
                x * 64,
                y * 64,
                w as u64 * 64,
                h as u64 * 64,
                radius,
            );
            let p = fill_pixel(self.data[j], alpha, tint);
            self.data.set(j, p);
            j += 1;
        }
    }

    /// Paints a rounded rectangle of the colour `color`, of `shape_width` by
    /// `shape_height` layout units and with corners of radius `radius`, whose top
    /// left corner is at the pixel `(left, top)`. The colour is laid over each
    /// pixel that the rectangle spans wholly, at the opacity of the rectangle
    /// there; alpha stays, and so does every other pixel.
    pub fn paint_shape(
        &mut self,
        left: u32,
        top: u32,
        shape_width: u64,
        shape_height: u64,
        radius: u32,
        color: Rgb,
    )
        requires
            old(self).wf(),
            shape_width <= SHAPE_LIMIT,
            shape_height <= SHAPE_LIMIT,
        ensures
            final(self).wf(),
            final(self)@.width == old(self)@.width,
            final(self)@.height == old(self)@.height,
            final(self)@.pixels.len() == old(self)@.pixels.len(),
            forall|j: int|
                0 <= j < old(self)@.pixels.len() ==> #[trigger] final(self)@.pixels[j] == tinted(
                    old(self)@.pixels[j],
                    shape_alpha(
                        j,
                        old(self)@.width,
                        left,
                        top,
                        shape_width,
                        shape_height,
                        radius,
                    ),
                    color,
                ),
    {
        let n = self.data.len();
        let w = self.width;
        let mut j: usize = 0;
        while j < n
            invariant
                j <= n,
                n == self.data@.len(),
                n == w * self.height,
                n * 4 <= MAX_BUFFER_BYTES,
                w == self.width == old(self).width,
                self.height == old(self).height,
                self.data@.len() == old(self).data@.len(),
                shape_width <= SHAPE_LIMIT,
                shape_height <= SHAPE_LIMIT,
                forall|k: int|
                    0 <= k < j ==> #[trigger] self.data@[k] == tinted(
                        old(self).data@[k],
                        shape_alpha(k, w as nat, left, top, shape_width, shape_height, radius),
                        color,
                    ),
                forall|k: int| j <= k < n ==> #[trigger] self.data@[k] == old(self).data@[k],
            decreases n - j,
        {
            assert(w > 0) by (nonlinear_arith)
                requires
                    j < w * self.height,
                    w >= 0,
            ;
            let x: u64 = (j % w as usize) as u64;
            let y: u64 = (j / w as usize) as u64;
            assert(y <= j) by (nonlinear_arith)
                requires
                    y == j as int / w as int,
                    w > 0,
                    j >= 0,
            ;
            if left as u64 <= x && x - (left as u64) < shape_width / 64 && top as u64 <= y && y - (
            top as u64) < shape_height / 64 {
                let alpha = calculate_rounded_rect_alpha(
                    (x - left as u64) * 64,
                    (y - top as u64) * 64,
                    shape_width,
                    shape_height,
                    radius,
                );
                let p = tint_pixel(self.data[j], alpha, color);
                self.data.set(j, p);
            }
            j += 1;
        }
    }

    /// Draws one pixel of a glyph of the colour `color`: the pixel in column
    /// `x` of row `y` is covered at `coverage` of 255. Outside the buffer this
    /// draws nothing, and so does coverage up to the cutoff.
    pub fn blend_glyph(&mut self, x: i32, y: i32, color: Rgb, coverage: u8, accumulate: bool)
        requires
            old(self).wf(),
        ensures
            final(self).wf(),
            final(self)@.width == old(self)@.width,
            final(self)@.height == old(self)@.height,
            final(self)@.pixels.len() == old(self)@.pixels.len(),
            final(self)@.pixels == if 0 <= x < old(self)@.width && 0 <= y < old(self)@.height {
                old(self)@.pixels.update(
                    y * old(self)@.width + x,
                    inked(old(self)@.pixels[y * old(self)@.width + x], color, coverage, accumulate),
                )
            } else {
                old(self)@.pixels
            },
    {
        if 0 <= x && (x as u32) < self.width && 0 <= y && (y as u32) < self.height {
            assert(y * self.width + x < self.width * self.height) by (nonlinear_arith)
                requires
                    0 <= x < self.width,
                    0 <= y < self.height,
            ;
            let j: usize = (y as u64 * self.width as u64 + x as u64) as usize;
            let p = ink_pixel(self.data[j], color, coverage, accumulate);
            self.data.set(j, p);
        }
    }

    /// The bytes of the buffer: for each pixel in order its blue, green, red
    /// and alpha.
    pub fn to_bytes(&self) -> (bytes: Vec<u8>)
        ensures
            bytes@.len() == 4 * self@.pixels.len(),
            forall|j: int|
                0 <= j < self@.pixels.len() ==> {
                    &&& bytes@[4 * j] == (#[trigger] self@.pixels[j]).b
                    &&& bytes@[4 * j + 1] == self@.pixels[j].g
                    &&& bytes@[4 * j + 2] == self@.pixels[j].r
                    &&& bytes@[4 * j + 3] == self@.pixels[j].a
                },
    {
        let mut bytes: Vec<u8> = Vec::new();
        let mut j: usize = 0;
        while j < self.data.len()
            invariant
                j <= self.data@.len(),
                bytes@.len() == 4 * j,
                forall|k: int|
                    0 <= k < j ==> {
                        &&& bytes@[4 * k] == (#[trigger] self.data@[k]).b
                        &&& bytes@[4 * k + 1] == self.data@[k].g
                        &&& bytes@[4 * k + 2] == self.data@[k].r
                        &&& bytes@[4 * k + 3] == self.data@[k].a
                    },
            decreases self.data@.len() - j,
        {
            let p = self.data[j];
            bytes.push(p.b);
            bytes.push(p.g);
            bytes.push(p.r);
            bytes.push(p.a);
            j += 1;
        }
        bytes
    }
}

} // verus!
