//! Conversions between images of related pixel types.

use crate::grid::lemma_scanline_index;
use crate::image2d::{Image2D, ImageBuffer2D};
use crate::pixel::{Luma, LumaA, Rgb, RgbA};
use vstd::prelude::*;

verus! {

/// `p` without its alpha value.
pub open spec fn spec_rgb_of<T>(p: RgbA<T>) -> Rgb<T> {
    Rgb { data: [p.data[0], p.data[1], p.data[2]] }
}

/// `p` without its alpha value.
pub open spec fn spec_luma_of<T>(p: LumaA<T>) -> Luma<T> {
    Luma { data: [p.data[0]] }
}

/// Discard the alpha component of an `RgbA` image.
pub fn rgba_to_rgb<T: Copy + PartialEq, I: Image2D<RgbA<T>>>(img: &I) -> (r: ImageBuffer2D<Rgb<T>>)
    requires
        img.wf(),
    ensures
        r.wf(),
        r@.width == img@.width,
        r@.height == img@.height,
        forall|i: int| 0 <= i < r@.cells.len() ==> #[trigger] r@.cells[i] == spec_rgb_of(img@.cells[i]),
{
    let w = img.width();
    let h = img.height();
    proof {
        img.lemma_view();
    }
    let mut cells: Vec<Rgb<T>> = Vec::new();
    let mut y: u32 = 0;
    while y < h
        invariant
            y <= h,
            img.wf(),
            img@.wf(),
            w == img@.width,
            h == img@.height,
            cells@.len() == y * w,
            forall|i: int|
                0 <= i < cells@.len() ==> #[trigger] cells@[i] == spec_rgb_of(img@.cells[i]),
        decreases h - y,
    {
        let mut x: u32 = 0;
        while x < w
            invariant
                x <= w,
                y < h,
                img.wf(),
                img@.wf(),
                w == img@.width,
                h == img@.height,
                cells@.len() == y * w + x,
                forall|i: int|
                    0 <= i < cells@.len() ==> #[trigger] cells@[i] == spec_rgb_of(img@.cells[i]),
            decreases w - x,
        {
            proof {
                lemma_scanline_index(w as int, h as int, x as int, y as int);
            }
            let p = img.get_pixel(x, y);
            cells.push(Rgb::new([p.data[0], p.data[1], p.data[2]]));
            x = x + 1;
        }
        proof {
            assert((y + 1) * w == y * w + w) by (nonlinear_arith);
        }
        y = y + 1;
    }
    proof {
        assert(h * w == w * h) by (nonlinear_arith);
    }
    ImageBuffer2D::from_cells(w, h, cells)
}

/// Discard the alpha component of a `LumaA` image.
pub fn luma_alpha_to_luma<T: Copy + PartialEq, I: Image2D<LumaA<T>>>(img: &I) -> (r: ImageBuffer2D<Luma<T>>)
    requires
        img.wf(),
    ensures
        r.wf(),
        r@.width == img@.width,
        r@.height == img@.height,
        forall|i: int|
            0 <= i < r@.cells.len() ==> #[trigger] r@.cells[i] == spec_luma_of(img@.cells[i]),
{
    let w = img.width();
    let h = img.height();
    proof {
        img.lemma_view();
    }
    let mut cells: Vec<Luma<T>> = Vec::new();
    let mut y: u32 = 0;
    while y < h
        invariant
            y <= h,
            img.wf(),
            img@.wf(),
            w == img@.width,
            h == img@.height,
            cells@.len() == y * w,
            forall|i: int|
                0 <= i < cells@.len() ==> #[trigger] cells@[i] == spec_luma_of(img@.cells[i]),
        decreases h - y,
    {
        let mut x: u32 = 0;
        while x < w
            invariant
                x <= w,
                y < h,
                img.wf(),
                img@.wf(),
                w == img@.width,
                h == img@.height,
                cells@.len() == y * w + x,
                forall|i: int|
                    0 <= i < cells@.len() ==> #[trigger] cells@[i] == spec_luma_of(img@.cells[i]),
            decreases w - x,
        {
            proof {
                lemma_scanline_index(w as int, h as int, x as int, y as int);
            }
            let p = img.get_pixel(x, y);
            cells.push(Luma::new([p.data[0]]));
            x = x + 1;
        }
        proof {
            assert((y + 1) * w == y * w + w) by (nonlinear_arith);
        }
        y = y + 1;
    }
    proof {
        assert(h * w == w * h) by (nonlinear_arith);
    }
    ImageBuffer2D::from_cells(w, h, cells)
}

} // verus!
