//! The image type, over its three kinds of backing store, and what can be
//! read from an image.

use crate::grid::{lemma_window_col, lemma_window_row, Grid, Layout};
use crate::iter::{ColIter, ColsIter, IndexedIter, Iter, RectIter, RowIter, RowsIter};
use crate::rect::{translated, Rect};
use crate::storage::{Data, OwnedRepr, ViewRepr, ViewReprMut};
use crate::pixel::PixelType;
use crate::traits::Pixel;
use core::marker::PhantomData;
use core::ops::Index;
use vstd::prelude::*;

verus! {

/// Bit depth of an image.
#[derive(Debug, Clone, Copy, PartialEq, Eq, Structural)]
pub enum BitDepth {
    /// 8 bit image.
    _8,
    /// 16 bit image.
    _16,
}

/// Type of an image.
pub type ImageType = (PixelType, BitDepth);

/// A 2D image: a window, described by `layout`, on the backing store `data`.
///
/// The store is owned or borrowed depending on the type of `D`. The fields
/// are public so that the contract of a mutable window can speak of what its
/// borrow will hold when it ends; every method asks for `wf()`, which the
/// constructors establish and the methods keep.
#[derive(Debug)]
pub struct Image2DRepr<D, P> {
    pub data: D,
    pub layout: Layout,
    pub pixel: PhantomData<P>,
}

/// Owned 2D image representation.
pub type ImageBuffer2D<P> = Image2DRepr<OwnedRepr<P>, P>;

/// Borrowed 2D image representation.
pub type Image2DView<'a, P> = Image2DRepr<ViewRepr<'a, P>, P>;

/// Mutably borrowed 2D image representation.
pub type Image2DViewMut<'a, P> = Image2DRepr<ViewReprMut<'a, P>, P>;

impl<D: Data<P>, P> View for Image2DRepr<D, P> {
    type V = Grid<P>;

    /// The image as a grid of pixels: what its window shows of its store.
    open spec fn view(&self) -> Grid<P> {
        self.layout.grid(self.data@)
    }
}

impl<D: Data<P>, P> Image2DRepr<D, P> {
    /// The invariant of the image: its window lies within its backing store,
    /// and a store that it owns holds its pixels and nothing else.
    pub open spec fn wf(&self) -> bool {
        &&& self.data@.len() <= usize::MAX
        &&& self.layout.fits(self.data@.len())
        &&& self.data.owns() ==> self.layout.offset == 0 && self.layout.stride == self.layout.width
            && self.data@.len() == self.layout.width * self.layout.height
    }
}

/// 2-dimensional image type.
pub trait Image2D<P: Pixel>: View<V = Grid<P>> + Sized {
    /// The invariant of the image: its window lies within its backing store.
    spec fn wf(&self) -> bool;

    /// How the image lies in its backing store.
    spec fn spec_layout(&self) -> Layout;

    /// The backing store of the image.
    spec fn spec_store(&self) -> Seq<P>;

    /// The grid of an image is what its window shows of its backing store.
    proof fn lemma_view(&self)
        requires
            self.wf(),
        ensures
            self@ == self.spec_layout().grid(self.spec_store()),
            self@.wf(),
            self@.width == self.spec_layout().width,
            self@.height == self.spec_layout().height,
            self.spec_layout().fits(self.spec_store().len()),
            self.spec_store().len() <= usize::MAX,
    ;

    /// Return a slice if the image lies in its backing store row after row
    /// without a gap.
    fn as_slice(&self) -> (r: Option<&[P]>)
        requires
            self.wf(),
        ensures
            r is Some <==> self.spec_layout().contiguous(),
            r matches Some(s) ==> s@ == self@.cells,
    ;

    /// Return the pixel at the specified coordinates.
    fn get_pixel(&self, x: u32, y: u32) -> (p: &P)
        requires
            self.wf(),
            x < self@.width,
            y < self@.height,
        ensures
            *p == self@.at(x as int, y as int),
    ;

    /// Return a view on the image.
    fn get_view(&self) -> (v: Image2DView<'_, P>)
        requires
            self.wf(),
        ensures
            v.wf(),
            v@ == self@,
            v.layout == self.spec_layout(),
            v.data@ == self.spec_store(),
    ;

    /// Return the width of the image.
    fn width(&self) -> (w: u32)
        requires
            self.wf(),
        ensures
            w == self@.width,
    ;

    /// Return the height of the image.
    fn height(&self) -> (h: u32)
        requires
            self.wf(),
        ensures
            h == self@.height,
    ;

    /// Return the dimensions of the image as a `(width, height)` tuple.
    fn dimensions(&self) -> (d: (u32, u32))
        requires
            self.wf(),
        ensures
            d.0 == self@.width,
            d.1 == self@.height,
            self@.cells.len() == d.0 * d.1,
    {
        proof {
            self.lemma_view();
        }
        (self.width(), self.height())
    }

    /// Return a Rect containing the whole image.
    fn rect(&self) -> (r: Rect)
        requires
            self.wf(),
        ensures
            r == (Rect { left: 0, top: 0, width: self@.width as u32, height: self@.height as u32 }),
            r.spec_fits(self@.width as int, self@.height as int),
    {
        Rect::new(0, 0, self.width(), self.height())
    }

    /// Return a cursor to the pixels and their indices `(row, column)`, in
    /// scanline order.
    fn enumerate_pixels(&self) -> (it: IndexedIter<'_, P>)
        requires
            self.wf(),
        ensures
            it.wf(),
            it@ == self@.indexed(),
    ;

    /// Return a cursor over the pixels of an image row in left to right
    /// order, or `None` if the image has no row `y`.
    fn row(&self, y: u32) -> (r: Option<RowIter<'_, P>>)
        requires
            self.wf(),
        ensures
            r is Some <==> y < self@.height,
            r matches Some(it) ==> it.wf() && it@ == self@.row(y as int) && it@.len()
                == self@.width,
    ;

    /// Return a cursor over the rows of an image in scanline order.
    fn rows(&self) -> (it: RowsIter<'_, P>)
        requires
            self.wf(),
        ensures
            it.wf(),
            it@ == self@.rows(),
    ;

    /// Return a cursor over the pixels of an image column in top to bottom
    /// order, or `None` if the image has no column `x`.
    fn col(&self, x: u32) -> (r: Option<ColIter<'_, P>>)
        requires
            self.wf(),
        ensures
            r is Some <==> x < self@.width,
            r matches Some(it) ==> it.wf() && it@ == self@.col(x as int) && it@.len()
                == self@.height,
    ;

    /// Return a cursor over the columns of an image in left to right order.
    fn cols(&self) -> (it: ColsIter<'_, P>)
        requires
            self.wf(),
        ensures
            it.wf(),
            it@ == self@.cols(),
    ;

    /// Return a cursor over the pixels of the region `rect`, which has to
    /// lie within the image, in scanline order.
    fn rect_iter(&self, rect: Rect) -> (it: RectIter<'_, P>)
        requires
            self.wf(),
            rect.spec_fits(self@.width as int, self@.height as int),
        ensures
            it.wf(),
            it@ == self@.window(rect).cells,
    ;

    /// Translate the given `Rect` within the image by the given 2D vector.
    /// The parts of the translated `Rect` that fall out of the image are
    /// cropped. Return the cropped `Rect` if it holds a point, or `None`
    /// otherwise.
    fn translate_rect(&self, rect: Rect, x: i64, y: i64) -> (r: Option<Rect>)
        requires
            self.wf(),
        ensures
            r == translated(rect, x as int, y as int, self@.width as int, self@.height as int),
    {
        let width = self.width() as i128;
        let height = self.height() as i128;
        let moved_left = rect.left() as i128 + x as i128;
        let moved_top = rect.top() as i128 + y as i128;
        let moved_right = moved_left + rect.width() as i128;
        let moved_bottom = moved_top + rect.height() as i128;
        let left = if moved_left < 0 {
            0
        } else {
            moved_left
        };
        let top = if moved_top < 0 {
            0
        } else {
            moved_top
        };
        let right = if moved_right > width {
            width
        } else {
            moved_right
        };
        let bottom = if moved_bottom > height {
            height
        } else {
            moved_bottom
        };
        if left < right && top < bottom {
            Some(Rect::new(left as u32, top as u32, (right - left) as u32, (bottom - top) as u32))
        } else {
            None
        }
    }

    /// Return a cursor over the image pixels, in scanline order.
    fn iter(&self) -> (it: Iter<'_, P>)
        requires
            self.wf(),
        ensures
            it.wf(),
            it@ == self@.cells,
    ;

    /// Return an owned copy of the image.
    fn to_owned(&self) -> (r: ImageBuffer2D<P>)
        requires
            self.wf(),
        ensures
            r.wf(),
            r@.width == self@.width,
            r@.height == self@.height,
            forall|i: int| 0 <= i < self@.cells.len() ==> cloned(self@.cells[i], #[trigger] r@.cells[i]),
    ;

    /// Return a view over a rectangular region of the image, which has to
    /// lie within the image.
    fn sub_image(&self, rect: Rect) -> (v: Image2DView<'_, P>)
        requires
            self.wf(),
            rect.spec_fits(self@.width as int, self@.height as int),
        ensures
            v.wf(),
            v@ == self@.window(rect),
            v.layout == self.spec_layout().sub(rect),
            v.data@ == self.spec_store(),
    ;
}

impl<D: Data<P>, P: Pixel> Image2D<P> for Image2DRepr<D, P> {
    open spec fn wf(&self) -> bool {
        &&& self.data@.len() <= usize::MAX
        &&& self.layout.fits(self.data@.len())
        &&& self.data.owns() ==> self.layout.offset == 0 && self.layout.stride == self.layout.width
            && self.data@.len() == self.layout.width * self.layout.height
    }

    open spec fn spec_layout(&self) -> Layout {
        self.layout
    }

    open spec fn spec_store(&self) -> Seq<P> {
        self.data@
    }

    proof fn lemma_view(&self) {
        assert(self.spec_store() == self.data@);
        assert(self.spec_layout() == self.layout);
        assert(self@ == self.layout.grid(self.data@));
    }

    fn as_slice(&self) -> (r: Option<&[P]>) {
        let elems = self.data.as_slice();
        let w = self.layout.width;
        let h = self.layout.height;
        if w == 0 || h == 0 {
            let s = vstd::slice::slice_subrange(elems, 0, 0);
            assert(s@ =~= self@.cells) by {
                assert(w * h == 0) by (nonlinear_arith)
                    requires
                        w == 0 || h == 0,
                ;
            }
            Some(s)
        } else if h == 1 || self.layout.stride == w as usize {
            proof {
                self.layout.lemma_contiguous(elems@);
            }
            let n = (w as usize) * (h as usize);
            Some(vstd::slice::slice_subrange(elems, self.layout.offset, self.layout.offset + n))
        } else {
            None
        }
    }

    fn get_pixel(&self, x: u32, y: u32) -> (p: &P) {
        let elems = self.data.as_slice();
        proof {
            self.layout.lemma_grid_at(elems@, x as int, y as int);
        }
        &elems[self.layout.place(elems.len(), x, y)]
    }

    fn get_view(&self) -> (v: Image2DView<'_, P>) {
        Image2DRepr { data: ViewRepr { elems: self.data.as_slice() }, layout: self.layout, pixel: PhantomData }
    }

    fn width(&self) -> (w: u32) {
        self.layout.width
    }

    fn height(&self) -> (h: u32) {
        self.layout.height
    }

    fn enumerate_pixels(&self) -> (it: IndexedIter<'_, P>) {
        IndexedIter::over(self.data.as_slice(), self.layout)
    }

    fn row(&self, y: u32) -> (r: Option<RowIter<'_, P>>) {
        if y < self.layout.height {
            let elems = self.data.as_slice();
            let rect = Rect::new(0, y, self.layout.width, 1);
            proof {
                self.layout.lemma_sub_grid(elems@, rect);
                lemma_window_row(self@, y as int);
            }
            Some(Iter::over(elems, self.layout.window(elems.len(), rect)))
        } else {
            None
        }
    }

    fn rows(&self) -> (it: RowsIter<'_, P>) {
        RowsIter::over(self.data.as_slice(), self.layout)
    }

    fn col(&self, x: u32) -> (r: Option<ColIter<'_, P>>) {
        if x < self.layout.width {
            let elems = self.data.as_slice();
            let rect = Rect::new(x, 0, 1, self.layout.height);
            proof {
                self.layout.lemma_sub_grid(elems@, rect);
                lemma_window_col(self@, x as int);
            }
            Some(Iter::over(elems, self.layout.window(elems.len(), rect)))
        } else {
            None
        }
    }

    fn cols(&self) -> (it: ColsIter<'_, P>) {
        ColsIter::over(self.data.as_slice(), self.layout)
    }

    fn rect_iter(&self, rect: Rect) -> (it: RectIter<'_, P>) {
        let elems = self.data.as_slice();
        proof {
            self.layout.lemma_sub_grid(elems@, rect);
        }
        Iter::over(elems, self.layout.window(elems.len(), rect))
    }

    fn iter(&self) -> (it: Iter<'_, P>) {
        Iter::over(self.data.as_slice(), self.layout)
    }

    fn to_owned(&self) -> (r: ImageBuffer2D<P>) {
        let elems = self.data.as_slice();
        let w = self.layout.width;
        let h = self.layout.height;
        let mut cells: Vec<P> = Vec::new();
        let mut y: u32 = 0;
        while y < h
            invariant
                y <= h,
                w == self.layout.width,
                h == self.layout.height,
                elems@ == self.data@,
                self.wf(),
                cells@.len() == y * w,
                y * w <= w * h,
                forall|i: int| 0 <= i < cells@.len() ==> cloned(self@.cells[i], #[trigger] cells@[i]),
            decreases h - y,
        {
            let mut x: u32 = 0;
            while x < w
                invariant
                    x <= w,
                    y < h,
                    w == self.layout.width,
                    h == self.layout.height,
                    elems@ == self.data@,
                    self.wf(),
                    cells@.len() == y * w + x,
                    forall|i: int|
                        0 <= i < cells@.len() ==> cloned(self@.cells[i], #[trigger] cells@[i]),
                decreases w - x,
            {
                proof {
                    self.layout.lemma_grid_at(elems@, x as int, y as int);
                    crate::grid::lemma_scanline_index(w as int, h as int, x as int, y as int);
                }
                let p = elems[self.layout.place(elems.len(), x, y)].clone();
                cells.push(p);
                x = x + 1;
            }
            proof {
                assert((y + 1) * w == y * w + w) by (nonlinear_arith);
                assert((y + 1) * w <= w * h) by (nonlinear_arith)
                    requires
                        y < h,
                ;
            }
            y = y + 1;
        }
        proof {
            assert(h * w == w * h) by (nonlinear_arith);
        }
        ImageBuffer2D::from_cells(w, h, cells)
    }

    fn sub_image(&self, rect: Rect) -> (v: Image2DView<'_, P>) {
        let elems = self.data.as_slice();
        proof {
            self.layout.lemma_sub_grid(elems@, rect);
        }
        Image2DRepr {
            data: ViewRepr { elems },
            layout: self.layout.window(elems.len(), rect),
            pixel: PhantomData,
        }
    }
}

impl<D: Data<P>, P: Pixel> Index<(u32, u32)> for Image2DRepr<D, P> {
    type Output = P;

    /// The pixel at the coordinates `(x, y)`, as `get_pixel` returns it.
    fn index(&self, idx: (u32, u32)) -> (p: &P)
        ensures
            *p == self@.at(idx.0 as int, idx.1 as int),
    {
        self.get_pixel(idx.0, idx.1)
    }
}

impl<D: Data<P>, P: Pixel> vstd::std_specs::core::IndexSpecImpl<(u32, u32)> for Image2DRepr<D, P> {
    /// The image is well formed and holds the coordinates.
    open spec fn index_req(&self, index: &(u32, u32)) -> bool {
        self.wf() && index.0 < self@.width && index.1 < self@.height
    }
}

impl Rect {
    /// Return `true` if the rectangle lies entirely within the image.
    pub fn fits_image<P: Pixel, I: Image2D<P>>(&self, img: &I) -> (b: bool)
        requires
            img.wf(),
        ensures
            b == self.spec_fits(img@.width as int, img@.height as int),
    {
        self.fits_dimensions(img.width(), img.height())
    }
}

} // verus!
