//! The ways to make an owned image, and the way back to its pixels.

use crate::error::ImageError;
use crate::grid::{lemma_dense, lemma_scanline_index, Grid, Layout};
use crate::image2d::{Image2D, Image2DRepr, ImageBuffer2D};
use crate::storage::OwnedRepr;
use crate::traits::Pixel;
use core::marker::PhantomData;
use vstd::prelude::*;

verus! {

/// The pixel at place `i` is made of the channel values that stand at the
/// places `i * N_CHANNELS ..` of `raw`.
pub open spec fn is_pixel_of<P: Pixel>(p: P, raw: Seq<P::Subpixel>, i: int) -> bool {
    &&& p.spec_channels().len() == P::N_CHANNELS
    &&& forall|c: int|
        0 <= c < P::N_CHANNELS ==> cloned(
            raw[i * P::N_CHANNELS + c],
            #[trigger] p.spec_channels()[c],
        )
}

/// What `from_raw_vec` answers to `len` channel values for an image of the
/// given dimensions, where it refuses them.
pub open spec fn raw_vec_refusal(width: u32, height: u32, len: usize, channels: u32) -> Option<
    ImageError,
> {
    if len % (channels as usize) != 0 {
        Some(ImageError::IncompletePixel { len, channels })
    } else if len / (channels as usize) != width * height {
        Some(
            ImageError::IncorrectBufferSize { pixels: (len / (channels as usize)) as usize, width, height },
        )
    } else {
        None
    }
}

impl<P: Pixel> Image2DRepr<OwnedRepr<P>, P> {
    /// The image that owns `cells` as its pixels in scanline order.
    pub(crate) fn from_cells(width: u32, height: u32, cells: Vec<P>) -> (r: ImageBuffer2D<P>)
        requires
            cells@.len() == width * height,
        ensures
            r.wf(),
            r@ == (Grid { width: width as nat, height: height as nat, cells: cells@ }),
            r.data.elems@ == cells@,
    {
        proof {
            lemma_dense(width, height, cells@);
            assert(cells.len() <= usize::MAX);
        }
        Image2DRepr {
            data: OwnedRepr { elems: cells },
            layout: Layout { offset: 0, stride: width as usize, width, height },
            pixel: PhantomData,
        }
    }

    /// Create a new owned image of specified dimensions filled with the
    /// default value of the pixel type, which is the pixel with zero in
    /// every channel for the pixel types of this crate.
    ///
    /// The number of pixels has to fit in `usize`.
    pub fn new(width: u32, height: u32) -> (r: ImageBuffer2D<P>) where P: Default
        requires
            width * height <= usize::MAX,
        ensures
            r.wf(),
            r@.width == width,
            r@.height == height,
            forall|i: int|
                0 <= i < r@.cells.len() ==> call_ensures(P::default, (), #[trigger] r@.cells[i]),
    {
        proof {
            assert(0 <= width * height) by (nonlinear_arith);
        }
        let total = (width as usize) * (height as usize);
        let mut cells: Vec<P> = Vec::new();
        let mut i: usize = 0;
        while i < total
            invariant
                i <= total,
                cells@.len() == i,
                forall|k: int| 0 <= k < i ==> call_ensures(P::default, (), #[trigger] cells@[k]),
            decreases total - i,
        {
            cells.push(P::default());
            i = i + 1;
        }
        Self::from_cells(width, height, cells)
    }

    /// Consume self and return the pixels in scanline order.
    pub fn into_raw_vec(self) -> (v: Vec<P>)
        requires
            self.wf(),
        ensures
            v@ == self@.cells,
    {
        proof {
            lemma_dense(self.layout.width, self.layout.height, self.data.elems@);
        }
        self.data.elems
    }

    /// Create a new image of specified dimensions from a `Vec` of the
    /// specified pixel type, which holds the pixels in scanline order.
    ///
    /// **Error**: `InvalidDimensions` if the dimensions do not match the
    /// length of `v`.
    pub fn from_vec(w: u32, h: u32, v: Vec<P>) -> (r: Result<ImageBuffer2D<P>, ImageError>)
        ensures
            r is Ok <==> v@.len() == w * h,
            r matches Ok(img) ==> img.wf() && img@ == (Grid {
                width: w as nat,
                height: h as nat,
                cells: v@,
            }),
            r matches Err(e) ==> e == (ImageError::InvalidDimensions {
                width: w,
                height: h,
                len: v@.len() as usize,
            }),
    {
        let len = v.len();
        proof {
            assert(w * h <= u64::MAX) by (nonlinear_arith)
                requires
                    w <= u32::MAX,
                    h <= u32::MAX,
            ;
        }
        if (len as u64) == (w as u64) * (h as u64) {
            Ok(Self::from_cells(w, h, v))
        } else {
            Err(ImageError::InvalidDimensions { width: w, height: h, len })
        }
    }

    /// Create a new image of specified dimensions from the channel values of
    /// its pixels: the channels of the first pixel, then those of the second,
    /// and so on in scanline order.
    ///
    /// **Error**: `IncompletePixel` if the length of `v` is not a multiple of
    /// the number of channels, `IncorrectBufferSize` if the number of pixels
    /// that `v` holds does not match the dimensions.
    pub fn from_raw_vec(w: u32, h: u32, v: &[P::Subpixel]) -> (r: Result<
        ImageBuffer2D<P>,
        ImageError,
    >)
        requires
            P::N_CHANNELS > 0,
        ensures
            r is Ok <==> raw_vec_refusal(w, h, v@.len() as usize, P::N_CHANNELS) is None,
            r matches Err(e) ==> raw_vec_refusal(w, h, v@.len() as usize, P::N_CHANNELS) == Some(e),
            r matches Ok(img) ==> {
                &&& img.wf()
                &&& img@.width == w
                &&& img@.height == h
                &&& forall|i: int|
                    0 <= i < img@.cells.len() ==> is_pixel_of(#[trigger] img@.cells[i], v@, i)
            },
    {
        let channels = P::N_CHANNELS as usize;
        let len = v.len();
        if len % channels != 0 {
            return Err(ImageError::IncompletePixel { len, channels: P::N_CHANNELS });
        }
        let pixels = len / channels;
        proof {
            assert(w * h <= u64::MAX) by (nonlinear_arith)
                requires
                    w <= u32::MAX,
                    h <= u32::MAX,
            ;
        }
        if (pixels as u64) != (w as u64) * (h as u64) {
            return Err(ImageError::IncorrectBufferSize { pixels, width: w, height: h });
        }
        proof {
            vstd::arithmetic::div_mod::lemma_fundamental_div_mod(len as int, channels as int);
        }
        let mut cells: Vec<P> = Vec::new();
        let mut i: usize = 0;
        while i < pixels
            invariant
                i <= pixels,
                channels == P::N_CHANNELS,
                channels > 0,
                len == v@.len(),
                len == channels * pixels,
                cells@.len() == i,
                forall|k: int| 0 <= k < i ==> is_pixel_of(#[trigger] cells@[k], v@, k),
            decreases pixels - i,
        {
            proof {
                assert(i * channels + channels <= channels * pixels) by (nonlinear_arith)
                    requires
                        i < pixels,
                ;
                assert(0 <= i * channels) by (nonlinear_arith);
            }
            let start = i * channels;
            let chunk = vstd::slice::slice_subrange(v, start, start + channels);
            let p = P::from_slice(chunk);
            cells.push(p);
            i = i + 1;
        }
        Ok(Self::from_cells(w, h, cells))
    }

    /// Generate a new image from a function that is called once with the
    /// coordinates `(x, y)` of each pixel, in an order that is not
    /// specified.
    ///
    /// The number of pixels has to fit in `usize`.
    pub fn generate<F>(w: u32, h: u32, f: F) -> (r: ImageBuffer2D<P>) where F: Fn((u32, u32)) -> P
        requires
            w * h <= usize::MAX,
            forall|x: u32, y: u32| x < w && y < h ==> call_requires(f, ((x, y),)),
        ensures
            r.wf(),
            r@.width == w,
            r@.height == h,
            forall|x: u32, y: u32|
                x < w && y < h ==> call_ensures(f, ((x, y),), #[trigger] r@.at(x as int, y as int)),
    {
        let mut cells: Vec<P> = Vec::new();
        let mut y: u32 = 0;
        while y < h
            invariant
                y <= h,
                cells@.len() == y * w,
                forall|x: u32, y: u32| x < w && y < h ==> call_requires(f, ((x, y),)),
                forall|k: int|
                    0 <= k < cells@.len() ==> call_ensures(
                        f,
                        (((k % (w as int)) as u32, (k / (w as int)) as u32),),
                        #[trigger] cells@[k],
                    ),
            decreases h - y,
        {
            let mut x: u32 = 0;
            while x < w
                invariant
                    x <= w,
                    y < h,
                    cells@.len() == y * w + x,
                    forall|x: u32, y: u32| x < w && y < h ==> call_requires(f, ((x, y),)),
                    forall|k: int|
                        0 <= k < cells@.len() ==> call_ensures(
                            f,
                            (((k % (w as int)) as u32, (k / (w as int)) as u32),),
                            #[trigger] cells@[k],
                        ),
                decreases w - x,
            {
                proof {
                    lemma_scanline_index(w as int, h as int, x as int, y as int);
                }
                let p = f((x, y));
                cells.push(p);
                x = x + 1;
            }
            proof {
                assert((y + 1) * w == y * w + w) by (nonlinear_arith);
            }
            y = y + 1;
        }
        proof {
            assert(h * w == w * h) by (nonlinear_arith);
        }
        let r = Self::from_cells(w, h, cells);
        proof {
            assert forall|x: u32, y: u32| x < w && y < h implies call_ensures(
                f,
                ((x, y),),
                #[trigger] r@.at(x as int, y as int),
            ) by {
                lemma_scanline_index(w as int, h as int, x as int, y as int);
            }
        }
        r
    }
}

} // verus!
