//! What can be written to an image that owns its store or has borrowed it
//! mutably.
//!
//! A mutable window on a part of an image holds a mutable borrow of the
//! store of that image. What the image holds once the window is given up is
//! what the borrow holds at that moment; the contracts below call it
//! `final(v.data.elems)`.

use crate::error::ImageError;
use crate::grid::{lemma_window_col, lemma_window_row, lemma_window_whole, Grid, Layout};
use crate::image2d::{Image2D, Image2DRepr, Image2DViewMut};
use crate::iter_mut::{
    ColIterMut, ColsIterMut, IndexedIterMut, IterMut, RectIterMut, RowIterMut, RowsIterMut,
};
use crate::rect::Rect;
use crate::storage::{OwnedRepr, ViewReprMut};
use crate::traits::Pixel;
use core::marker::PhantomData;
use vstd::prelude::*;

verus! {

/// `after` is the image `before` with some of its pixels changed: it lies in
/// its store as `before` does, and the store is unchanged outside the image.
pub open spec fn same_window<P: Pixel, I: Image2D<P>>(before: I, after: I) -> bool {
    &&& after.wf()
    &&& after.spec_layout() == before.spec_layout()
    &&& after@.width == before@.width
    &&& after@.height == before@.height
    &&& before.spec_layout().framed(before.spec_store(), after.spec_store())
}

/// `after` is `before` with every pixel of `rect` replaced by a clone of
/// `value`.
pub open spec fn filled<P: Clone>(before: Grid<P>, after: Grid<P>, rect: Rect, value: P) -> bool {
    &&& after.wf()
    &&& after.width == before.width
    &&& after.height == before.height
    &&& forall|x: int, y: int|
        before.holds(x, y) ==> if rect.spec_holds(x, y) {
            cloned(value, #[trigger] after.at(x, y))
        } else {
            after.at(x, y) == before.at(x, y)
        }
}

/// `after` is `before` with the pixels of `dst_rect` replaced by clones of
/// the pixels of `src_rect` in `src`, the first by the first and so on in
/// scanline order.
pub open spec fn blitted<P: Clone>(
    before: Grid<P>,
    after: Grid<P>,
    dst_rect: Rect,
    src: Grid<P>,
    src_rect: Rect,
) -> bool {
    &&& after.wf()
    &&& after.width == before.width
    &&& after.height == before.height
    &&& forall|x: int, y: int|
        before.holds(x, y) ==> if dst_rect.spec_holds(x, y) {
            cloned(
                src.at(src_rect.left + (x - dst_rect.left), src_rect.top + (y - dst_rect.top)),
                #[trigger] after.at(x, y),
            )
        } else {
            after.at(x, y) == before.at(x, y)
        }
}

/// Filling a rectangle of one image and then copying that rectangle onto an
/// image that was equal to it before the filling makes the two images equal,
/// where a clone of a pixel is that pixel.
pub proof fn lemma_fill_then_blit<P: Clone>(
    start: Grid<P>,
    painted: Grid<P>,
    copied: Grid<P>,
    rect: Rect,
    value: P,
)
    requires
        start.wf(),
        rect.spec_fits(start.width as int, start.height as int),
        filled(start, painted, rect, value),
        blitted(start, copied, rect, painted, rect),
        forall|p: P, q: P| cloned(p, q) ==> p == q,
    ensures
        copied == painted,
{
    assert forall|x: int, y: int| copied.holds(x, y) implies copied.at(x, y) == painted.at(x, y) by {
        assert(start.holds(x, y));
        if rect.spec_holds(x, y) {
            assert(rect.left + (x - rect.left) == x);
            assert(rect.top + (y - rect.top) == y);
            assert(cloned(painted.at(x, y), copied.at(x, y)));
        }
    }
    crate::grid::lemma_grid_ext(copied, painted);
}

/// Why a copy of `src_rect`, out of an image of the dimensions `src`, onto
/// `dst_rect`, in an image of the dimensions `dst`, is refused, if it is.
pub open spec fn blit_refusal(src_rect: Rect, dst_rect: Rect, src: (int, int), dst: (int, int)) -> Option<
    ImageError,
> {
    if src_rect.width != dst_rect.width || src_rect.height != dst_rect.height {
        Some(
            ImageError::RectSizeMismatch {
                source_width: src_rect.width,
                source_height: src_rect.height,
                destination_width: dst_rect.width,
                destination_height: dst_rect.height,
            },
        )
    } else if !src_rect.spec_fits(src.0, src.1) {
        Some(ImageError::SourceRectOutOfBounds)
    } else if !dst_rect.spec_fits(dst.0, dst.1) {
        Some(ImageError::DestinationRectOutOfBounds)
    } else {
        None
    }
}

/// The mutable window `v` shows the part `rect` of the image `before`, and
/// `after` is that image once the window is given up with `end` in its store:
/// what was written through the window shows inside `rect`, and no pixel
/// outside `rect` has changed, provided that the store was written to
/// within the window only, which every operation of a window keeps to.
pub open spec fn lent<P: Pixel, I: Image2D<P>>(
    before: I,
    after: I,
    rect: Rect,
    v: Image2DViewMut<P>,
    end: Seq<P>,
) -> bool {
    &&& v.wf()
    &&& v@ == before@.window(rect)
    &&& v.layout == before.spec_layout().sub(rect)
    &&& v.data.elems@ == before.spec_store()
    &&& after.spec_layout() == before.spec_layout()
    &&& after.spec_store() == end
    &&& v.layout.framed(v.data.elems@, end) ==> {
        &&& same_window(before, after)
        &&& after@ == before@.with_window(rect, v.layout.grid(end))
    }
}

/// The rectangle that holds row `y` of an image of the given width.
pub open spec fn row_rect(width: nat, y: u32) -> Rect {
    Rect { left: 0, top: y, width: width as u32, height: 1 }
}

/// The rectangle that holds column `x` of an image of the given height.
pub open spec fn col_rect(height: nat, x: u32) -> Rect {
    Rect { left: x, top: 0, width: 1, height: height as u32 }
}

/// The rectangle that holds an image of the given dimensions.
pub open spec fn whole_rect(width: nat, height: nat) -> Rect {
    Rect { left: 0, top: 0, width: width as u32, height: height as u32 }
}

/// Contains operations on mutable images.
pub trait Image2DMut<P: Pixel>: Image2D<P> {
    /// Return a mutable reference to the requested pixel. What is written
    /// through it is what the image holds at `(x, y)` afterwards.
    fn get_pixel_mut(&mut self, x: u32, y: u32) -> (p: &mut P)
        requires
            old(self).wf(),
            x < old(self)@.width,
            y < old(self)@.height,
        ensures
            *p == old(self)@.at(x as int, y as int),
            same_window(*old(self), *final(self)),
            final(self)@ == old(self)@.with_cell(x as int, y as int, *final(p)),
            final(self).spec_store() == old(self).spec_store().update(
                old(self).spec_layout().index(x as int, y as int),
                *final(p),
            ),
    ;

    /// Set the pixel at the specified coordinates to the specified value.
    fn put_pixel(&mut self, x: u32, y: u32, pixel: P)
        requires
            old(self).wf(),
            x < old(self)@.width,
            y < old(self)@.height,
        ensures
            same_window(*old(self), *final(self)),
            final(self)@ == old(self)@.with_cell(x as int, y as int, pixel),
            final(self).spec_store() == old(self).spec_store().update(
                old(self).spec_layout().index(x as int, y as int),
                pixel,
            ),
    ;

    /// Fill the image with clones of the given value.
    fn fill(&mut self, value: &P)
        requires
            old(self).wf(),
        ensures
            same_window(*old(self), *final(self)),
            forall|i: int|
                0 <= i < final(self)@.cells.len() ==> cloned(*value, #[trigger] final(self)@.cells[i]),
    ;

    /// Fill the given `Rect`, which has to lie within the image, with clones
    /// of the given value.
    fn fill_rect(&mut self, rect: Rect, value: &P)
        requires
            old(self).wf(),
            rect.spec_fits(old(self)@.width as int, old(self)@.height as int),
        ensures
            same_window(*old(self), *final(self)),
            filled(old(self)@, final(self)@, rect, *value),
    ;

    /// Blit (i.e. copy) a `Rect` from the source image onto the destination
    /// image. The pixels are paired in scanline order.
    ///
    /// **Error**: `RectSizeMismatch` if the two rectangles differ in size;
    /// `SourceRectOutOfBounds` if `src_rect` does not lie within `img`;
    /// `DestinationRectOutOfBounds` if `dst_rect` does not lie within `self`.
    /// Nothing is written in these cases.
    fn blit_rect<I: Image2D<P>>(&mut self, src_rect: Rect, dst_rect: Rect, img: &I) -> (r: Result<
        (),
        ImageError,
    >)
        requires
            old(self).wf(),
            img.wf(),
        ensures
            same_window(*old(self), *final(self)),
            r is Ok <==> blit_refusal(
                src_rect,
                dst_rect,
                (img@.width as int, img@.height as int),
                (old(self)@.width as int, old(self)@.height as int),
            ) is None,
            r matches Err(e) ==> blit_refusal(
                src_rect,
                dst_rect,
                (img@.width as int, img@.height as int),
                (old(self)@.width as int, old(self)@.height as int),
            ) == Some(e) && final(self)@ == old(self)@ && final(self).spec_store() == old(
                self,
            ).spec_store(),
            r is Ok ==> blitted(old(self)@, final(self)@, dst_rect, img@, src_rect),
    ;

    /// Return a mutable view on a rectangular region of the image, which has
    /// to lie within the image.
    ///
    /// The view shows the pixels of `rect`. What is written through it shows
    /// in the image inside `rect` once the view is given up, and no pixel
    /// outside `rect` changes.
    fn sub_image_mut(&mut self, rect: Rect) -> (v: Image2DViewMut<'_, P>)
        requires
            old(self).wf(),
            rect.spec_fits(old(self)@.width as int, old(self)@.height as int),
        ensures
            lent(*old(self), *final(self), rect, v, final(v.data.elems)@),
    ;

    /// Return a cursor to the pixels and their indices `(row, column)`, in
    /// scanline order.
    fn enumerate_pixels_mut(&mut self) -> (it: IndexedIterMut<'_, P>)
        requires
            old(self).wf(),
        ensures
            lent(
                *old(self),
                *final(self),
                whole_rect(old(self)@.width, old(self)@.height),
                it.inner.view,
                final(it.inner.view.data.elems)@,
            ),
            it.wf(),
            it.inner.fresh(),
            it.inner.view@ == old(self)@,
    ;

    /// Return a cursor over the pixels of an image row in left to right
    /// order, or `None` if the image has no row `y`.
    fn row_mut(&mut self, y: u32) -> (r: Option<RowIterMut<'_, P>>)
        requires
            old(self).wf(),
        ensures
            r is Some <==> y < old(self)@.height,
            r is None ==> final(self).spec_store() == old(self).spec_store() && same_window(
                *old(self),
                *final(self),
            ) && final(self)@ == old(self)@,
            r matches Some(it) ==> lent(
                *old(self),
                *final(self),
                row_rect(old(self)@.width, y),
                it.view,
                final(it.view.data.elems)@,
            ) && it.wf() && it.fresh() && it.view@.cells == old(self)@.row(y as int),
    ;

    /// Return a cursor over the rows of an image in scanline order.
    fn rows_mut(&mut self) -> (it: RowsIterMut<'_, P>)
        requires
            old(self).wf(),
        ensures
            lent(
                *old(self),
                *final(self),
                whole_rect(old(self)@.width, old(self)@.height),
                it.view,
                final(it.view.data.elems)@,
            ),
            it.wf(),
            it.fresh(),
            it.view@ == old(self)@,
    ;

    /// Return a cursor over the pixels of an image column in top to bottom
    /// order, or `None` if the image has no column `x`.
    fn col_mut(&mut self, x: u32) -> (r: Option<ColIterMut<'_, P>>)
        requires
            old(self).wf(),
        ensures
            r is Some <==> x < old(self)@.width,
            r is None ==> final(self).spec_store() == old(self).spec_store() && same_window(
                *old(self),
                *final(self),
            ) && final(self)@ == old(self)@,
            r matches Some(it) ==> lent(
                *old(self),
                *final(self),
                col_rect(old(self)@.height, x),
                it.view,
                final(it.view.data.elems)@,
            ) && it.wf() && it.fresh() && it.view@.cells == old(self)@.col(x as int),
    ;

    /// Return a cursor over the columns of an image in left to right order.
    fn cols_mut(&mut self) -> (it: ColsIterMut<'_, P>)
        requires
            old(self).wf(),
        ensures
            lent(
                *old(self),
                *final(self),
                whole_rect(old(self)@.width, old(self)@.height),
                it.view,
                final(it.view.data.elems)@,
            ),
            it.wf(),
            it.fresh(),
            it.view@ == old(self)@,
    ;

    /// Return a cursor over the pixels of the region `rect`, which has to
    /// lie within the image, in scanline order.
    fn rect_iter_mut(&mut self, rect: Rect) -> (it: RectIterMut<'_, P>)
        requires
            old(self).wf(),
            rect.spec_fits(old(self)@.width as int, old(self)@.height as int),
        ensures
            lent(*old(self), *final(self), rect, it.view, final(it.view.data.elems)@),
            it.wf(),
            it.fresh(),
    ;

    /// Return a cursor over the image pixels, in scanline order.
    fn iter_mut(&mut self) -> (it: IterMut<'_, P>)
        requires
            old(self).wf(),
        ensures
            lent(
                *old(self),
                *final(self),
                whole_rect(old(self)@.width, old(self)@.height),
                it.view,
                final(it.view.data.elems)@,
            ),
            it.wf(),
            it.fresh(),
            it.view@ == old(self)@,
    ;
}

/// The pixel at `(x, y)` of the window `layout` on `elems`.
fn cell_mut<'a, P>(elems: &'a mut [P], layout: Layout, x: u32, y: u32) -> (p: &'a mut P)
    requires
        layout.fits(old(elems)@.len()),
        x < layout.width,
        y < layout.height,
    ensures
        *p == layout.grid(old(elems)@).at(x as int, y as int),
        final(elems)@ == old(elems)@.update(layout.index(x as int, y as int), *final(p)),
        layout.fits(final(elems)@.len()),
        layout.framed(old(elems)@, final(elems)@),
        layout.grid(final(elems)@) == layout.grid(old(elems)@).with_cell(
            x as int,
            y as int,
            *final(p),
        ),
{
    let i = layout.place(elems.len(), x, y);
    proof {
        layout.lemma_grid_at(elems@, x as int, y as int);
    }
    proof {
        assert forall|q: P|
            layout.framed(elems@, #[trigger] elems@.update(i as int, q)) && layout.grid(
                elems@.update(i as int, q),
            ) == layout.grid(elems@).with_cell(x as int, y as int, q) by {
            layout.lemma_update(elems@, x as int, y as int, q);
        }
    }
    &mut elems[i]
}

/// Write `value` to the pixel at `(x, y)` of the window `layout` on `elems`.
fn cell_set<P>(elems: &mut [P], layout: Layout, x: u32, y: u32, value: P)
    requires
        layout.fits(old(elems)@.len()),
        x < layout.width,
        y < layout.height,
    ensures
        final(elems)@ == old(elems)@.update(layout.index(x as int, y as int), value),
        layout.fits(final(elems)@.len()),
        layout.framed(old(elems)@, final(elems)@),
        layout.grid(final(elems)@) == layout.grid(old(elems)@).with_cell(x as int, y as int, value),
{
    let i = layout.place(elems.len(), x, y);
    proof {
        layout.lemma_update(elems@, x as int, y as int, value);
    }
    elems[i] = value;
}

/// Replace every pixel of `rect` in the window `layout` on `elems` by a
/// clone of `value`.
fn cells_fill<P: Clone>(elems: &mut [P], layout: Layout, rect: Rect, value: &P)
    requires
        layout.fits(old(elems)@.len()),
        rect.spec_fits(layout.width as int, layout.height as int),
    ensures
        layout.fits(final(elems)@.len()),
        layout.framed(old(elems)@, final(elems)@),
        filled(layout.grid(old(elems)@), layout.grid(final(elems)@), rect, *value),
{
    let ghost before = elems@;
    let mut y: u32 = 0;
    while y < rect.height
        invariant
            y <= rect.height,
            layout.fits(before.len()),
            rect.spec_fits(layout.width as int, layout.height as int),
            layout.fits(elems@.len()),
            layout.framed(before, elems@),
            layout.grid(elems@).wf(),
            forall|u: int, v: int|
                layout.holds(u, v) ==> if rect.spec_holds(u, v) && v < rect.top + y {
                    cloned(*value, #[trigger] layout.grid(elems@).at(u, v))
                } else {
                    layout.grid(elems@).at(u, v) == layout.grid(before).at(u, v)
                },
        decreases rect.height - y,
    {
        let mut x: u32 = 0;
        while x < rect.width
            invariant
                x <= rect.width,
                y < rect.height,
                layout.fits(before.len()),
                rect.spec_fits(layout.width as int, layout.height as int),
                layout.fits(elems@.len()),
                layout.framed(before, elems@),
                layout.grid(elems@).wf(),
                forall|u: int, v: int|
                    layout.holds(u, v) ==> if rect.spec_holds(u, v) && (v < rect.top + y || (v
                        == rect.top + y && u < rect.left + x)) {
                        cloned(*value, #[trigger] layout.grid(elems@).at(u, v))
                    } else {
                        layout.grid(elems@).at(u, v) == layout.grid(before).at(u, v)
                    },
            decreases rect.width - x,
        {
            let ghost prev = elems@;
            let p = value.clone();
            cell_set(elems, layout, rect.left + x, rect.top + y, p);
            proof {
                layout.lemma_framed_trans(before, prev, elems@);
                assert forall|u: int, v: int| layout.holds(u, v) implies if rect.spec_holds(u, v)
                    && (v < rect.top + y || (v == rect.top + y && u < rect.left + x + 1)) {
                    cloned(*value, #[trigger] layout.grid(elems@).at(u, v))
                } else {
                    layout.grid(elems@).at(u, v) == layout.grid(before).at(u, v)
                } by {
                    crate::grid::lemma_scanline_index(
                        layout.width as int,
                        layout.height as int,
                        u,
                        v,
                    );
                    crate::grid::lemma_scanline_index(
                        layout.width as int,
                        layout.height as int,
                        rect.left + x,
                        rect.top + y,
                    );
                    let g0 = layout.grid(prev);
                    let g1 = layout.grid(elems@);
                    if u == rect.left + x && v == rect.top + y {
                        assert(g1.at(u, v) == p);
                    } else {
                        assert(v * layout.width + u != (rect.top + y) * layout.width + (rect.left
                            + x));
                        assert(g1.at(u, v) == g0.at(u, v));
                    }
                }
            }
            x = x + 1;
        }
        y = y + 1;
    }
}

/// Replace the pixels of `dst_rect` in the window `layout` on `elems` by
/// clones of the pixels of `src_rect` in `img`, in scanline order.
fn cells_blit<P: Pixel, I: Image2D<P>>(
    elems: &mut [P],
    layout: Layout,
    dst_rect: Rect,
    img: &I,
    src_rect: Rect,
)
    requires
        layout.fits(old(elems)@.len()),
        img.wf(),
        dst_rect.spec_fits(layout.width as int, layout.height as int),
        src_rect.spec_fits(img@.width as int, img@.height as int),
        src_rect.width == dst_rect.width,
        src_rect.height == dst_rect.height,
    ensures
        layout.fits(final(elems)@.len()),
        layout.framed(old(elems)@, final(elems)@),
        blitted(layout.grid(old(elems)@), layout.grid(final(elems)@), dst_rect, img@, src_rect),
{
    let ghost before = elems@;
    let rect = dst_rect;
    let src_width = img.width();
    let src_height = img.height();
    let mut y: u32 = 0;
    while y < rect.height
        invariant
            y <= rect.height,
            rect == dst_rect,
            img.wf(),
            src_width == img@.width,
            src_height == img@.height,
            layout.fits(before.len()),
            rect.spec_fits(layout.width as int, layout.height as int),
            src_rect.spec_fits(img@.width as int, img@.height as int),
            src_rect.width == rect.width,
            src_rect.height == rect.height,
            layout.fits(elems@.len()),
            layout.framed(before, elems@),
            layout.grid(elems@).wf(),
            forall|u: int, v: int|
                layout.holds(u, v) ==> if rect.spec_holds(u, v) && v < rect.top + y {
                    cloned(
                        img@.at(src_rect.left + (u - rect.left), src_rect.top + (v - rect.top)),
                        #[trigger] layout.grid(elems@).at(u, v),
                    )
                } else {
                    layout.grid(elems@).at(u, v) == layout.grid(before).at(u, v)
                },
        decreases rect.height - y,
    {
        let mut x: u32 = 0;
        while x < rect.width
            invariant
                x <= rect.width,
                y < rect.height,
                rect == dst_rect,
                img.wf(),
                src_width == img@.width,
                src_height == img@.height,
                layout.fits(before.len()),
                rect.spec_fits(layout.width as int, layout.height as int),
                src_rect.spec_fits(img@.width as int, img@.height as int),
                src_rect.width == rect.width,
                src_rect.height == rect.height,
                layout.fits(elems@.len()),
                layout.framed(before, elems@),
                layout.grid(elems@).wf(),
                forall|u: int, v: int|
                    layout.holds(u, v) ==> if rect.spec_holds(u, v) && (v < rect.top + y || (v
                        == rect.top + y && u < rect.left + x)) {
                        cloned(
                            img@.at(src_rect.left + (u - rect.left), src_rect.top + (v - rect.top)),
                            #[trigger] layout.grid(elems@).at(u, v),
                        )
                    } else {
                        layout.grid(elems@).at(u, v) == layout.grid(before).at(u, v)
                    },
            decreases rect.width - x,
        {
            let ghost prev = elems@;
            let p = img.get_pixel(src_rect.left + x, src_rect.top + y).clone();
            cell_set(elems, layout, rect.left + x, rect.top + y, p);
            proof {
                layout.lemma_framed_trans(before, prev, elems@);
                assert forall|u: int, v: int| layout.holds(u, v) implies if rect.spec_holds(u, v)
                    && (v < rect.top + y || (v == rect.top + y && u < rect.left + x + 1)) {
                    cloned(
                        img@.at(src_rect.left + (u - rect.left), src_rect.top + (v - rect.top)),
                        #[trigger] layout.grid(elems@).at(u, v),
                    )
                } else {
                    layout.grid(elems@).at(u, v) == layout.grid(before).at(u, v)
                } by {
                    crate::grid::lemma_scanline_index(
                        layout.width as int,
                        layout.height as int,
                        u,
                        v,
                    );
                    crate::grid::lemma_scanline_index(
                        layout.width as int,
                        layout.height as int,
                        rect.left + x,
                        rect.top + y,
                    );
                    let g0 = layout.grid(prev);
                    let g1 = layout.grid(elems@);
                    if u == rect.left + x && v == rect.top + y {
                        assert(g1.at(u, v) == p);
                    } else {
                        assert(v * layout.width + u != (rect.top + y) * layout.width + (rect.left
                            + x));
                        assert(g1.at(u, v) == g0.at(u, v));
                    }
                }
            }
            x = x + 1;
        }
        y = y + 1;
    }
}

/// Every pixel of a grid that is filled all over is a clone of the value.
proof fn lemma_filled_whole<P: Clone>(before: Grid<P>, after: Grid<P>, value: P)
    requires
        before.width <= u32::MAX,
        before.height <= u32::MAX,
        filled(before, after, whole_rect(before.width, before.height), value),
    ensures
        forall|i: int| 0 <= i < after.cells.len() ==> cloned(value, #[trigger] after.cells[i]),
{
    assert forall|i: int| 0 <= i < after.cells.len() implies cloned(
        value,
        #[trigger] after.cells[i],
    ) by {
        crate::grid::lemma_scanline_coordinate(after.width as int, after.height as int, i);
        let x = i % (after.width as int);
        let y = i / (after.width as int);
        assert(before.holds(x, y));
        assert(after.at(x, y) == after.cells[i]);
    }
}

/// The mutable window on the part `rect` of the window `layout` on `elems`.
fn cells_window<'a, P: Pixel>(elems: &'a mut [P], layout: Layout, rect: Rect) -> (v: Image2DViewMut<
    'a,
    P,
>)
    requires
        old(elems)@.len() <= usize::MAX,
        layout.fits(old(elems)@.len()),
        rect.spec_fits(layout.width as int, layout.height as int),
    ensures
        v.wf(),
        v@ == layout.grid(old(elems)@).window(rect),
        v.layout == layout.sub(rect),
        v.data.elems@ == old(elems)@,
        final(elems)@ == final(v.data.elems)@,
        v.layout.framed(v.data.elems@, final(v.data.elems)@) ==> {
            &&& layout.fits(final(elems)@.len())
            &&& layout.framed(old(elems)@, final(elems)@)
            &&& layout.grid(final(elems)@) == layout.grid(old(elems)@).with_window(
                rect,
                v.layout.grid(final(v.data.elems)@),
            )
        },
{
    let sub = layout.window(elems.len(), rect);
    proof {
        layout.lemma_sub_grid(elems@, rect);
        assert forall|after: Seq<P>| #[trigger] sub.framed(elems@, after) implies layout.fits(
            after.len(),
        ) && layout.framed(elems@, after) && layout.grid(after) == layout.grid(elems@).with_window(
            rect,
            sub.grid(after),
        ) by {
            layout.lemma_write_back(rect, elems@, after);
        }
    }
    Image2DRepr { data: ViewReprMut { elems }, layout: sub, pixel: PhantomData }
}

/// The cursor over the pixels of the part `rect` of the window `layout` on
/// `elems`.
fn cells_iter<'a, P: Pixel>(elems: &'a mut [P], layout: Layout, rect: Rect) -> (it: IterMut<'a, P>)
    requires
        old(elems)@.len() <= usize::MAX,
        layout.fits(old(elems)@.len()),
        rect.spec_fits(layout.width as int, layout.height as int),
    ensures
        it.wf(),
        it.fresh(),
        it.view.wf(),
        it.view@ == layout.grid(old(elems)@).window(rect),
        it.view.layout == layout.sub(rect),
        it.view.data.elems@ == old(elems)@,
        final(elems)@ == final(it.view.data.elems)@,
        it.view.layout.framed(it.view.data.elems@, final(it.view.data.elems)@) ==> {
            &&& layout.fits(final(elems)@.len())
            &&& layout.framed(old(elems)@, final(elems)@)
            &&& layout.grid(final(elems)@) == layout.grid(old(elems)@).with_window(
                rect,
                it.view.layout.grid(final(it.view.data.elems)@),
            )
        },
{
    proof {
        layout.lemma_sub(elems@.len(), rect);
        layout.sub(rect).lemma_area(elems@.len());
    }
    let back = (rect.width as usize) * (rect.height as usize);
    IterMut { view: cells_window(elems, layout, rect), front: 0, back }
}

impl<P: Pixel> Image2DMut<P> for Image2DRepr<OwnedRepr<P>, P> {
    fn get_pixel_mut(&mut self, x: u32, y: u32) -> (p: &mut P) {
        cell_mut(self.data.elems.as_mut_slice(), self.layout, x, y)
    }

    fn put_pixel(&mut self, x: u32, y: u32, pixel: P) {
        cell_set(self.data.elems.as_mut_slice(), self.layout, x, y, pixel);
    }

    fn fill(&mut self, value: &P) {
        let rect = Rect::new(0, 0, self.layout.width, self.layout.height);
        let ghost before = self@;
        cells_fill(self.data.elems.as_mut_slice(), self.layout, rect, value);
        proof {
            lemma_filled_whole(before, self@, *value);
        }
    }

    fn fill_rect(&mut self, rect: Rect, value: &P) {
        cells_fill(self.data.elems.as_mut_slice(), self.layout, rect, value);
    }

    fn blit_rect<I: Image2D<P>>(&mut self, src_rect: Rect, dst_rect: Rect, img: &I) -> (r: Result<
        (),
        ImageError,
    >) {
        if src_rect.width != dst_rect.width || src_rect.height != dst_rect.height {
            return Err(
                ImageError::RectSizeMismatch {
                    source_width: src_rect.width,
                    source_height: src_rect.height,
                    destination_width: dst_rect.width,
                    destination_height: dst_rect.height,
                },
            );
        }
        if !src_rect.fits_image(img) {
            return Err(ImageError::SourceRectOutOfBounds);
        }
        if !dst_rect.fits_dimensions(self.layout.width, self.layout.height) {
            return Err(ImageError::DestinationRectOutOfBounds);
        }
        cells_blit(self.data.elems.as_mut_slice(), self.layout, dst_rect, img, src_rect);
        Ok(())
    }

    fn sub_image_mut(&mut self, rect: Rect) -> (v: Image2DViewMut<'_, P>) {
        cells_window(self.data.elems.as_mut_slice(), self.layout, rect)
    }

    fn enumerate_pixels_mut(&mut self) -> (it: IndexedIterMut<'_, P>) {
        let rect = Rect::new(0, 0, self.layout.width, self.layout.height);
        proof {
            lemma_window_whole(self@);
        }
        IndexedIterMut { inner: cells_iter(self.data.elems.as_mut_slice(), self.layout, rect) }
    }

    fn row_mut(&mut self, y: u32) -> (r: Option<RowIterMut<'_, P>>) {
        if y < self.layout.height {
            let rect = Rect::new(0, y, self.layout.width, 1);
            proof {
                lemma_window_row(self@, y as int);
            }
            Some(cells_iter(self.data.elems.as_mut_slice(), self.layout, rect))
        } else {
            None
        }
    }

    fn rows_mut(&mut self) -> (it: RowsIterMut<'_, P>) {
        let rect = Rect::new(0, 0, self.layout.width, self.layout.height);
        proof {
            lemma_window_whole(self@);
        }
        let back = self.layout.height;
        RowsIterMut { view: cells_window(self.data.elems.as_mut_slice(), self.layout, rect), front: 0, back }
    }

    fn col_mut(&mut self, x: u32) -> (r: Option<ColIterMut<'_, P>>) {
        if x < self.layout.width {
            let rect = Rect::new(x, 0, 1, self.layout.height);
            proof {
                lemma_window_col(self@, x as int);
            }
            Some(cells_iter(self.data.elems.as_mut_slice(), self.layout, rect))
        } else {
            None
        }
    }

    fn cols_mut(&mut self) -> (it: ColsIterMut<'_, P>) {
        let rect = Rect::new(0, 0, self.layout.width, self.layout.height);
        proof {
            lemma_window_whole(self@);
        }
        let back = self.layout.width;
        ColsIterMut { view: cells_window(self.data.elems.as_mut_slice(), self.layout, rect), front: 0, back }
    }

    fn rect_iter_mut(&mut self, rect: Rect) -> (it: RectIterMut<'_, P>) {
        cells_iter(self.data.elems.as_mut_slice(), self.layout, rect)
    }

    fn iter_mut(&mut self) -> (it: IterMut<'_, P>) {
        let rect = Rect::new(0, 0, self.layout.width, self.layout.height);
        proof {
            lemma_window_whole(self@);
        }
        cells_iter(self.data.elems.as_mut_slice(), self.layout, rect)
    }
}

impl<'a, P: Pixel> Image2DMut<P> for Image2DRepr<ViewReprMut<'a, P>, P> {
    fn get_pixel_mut(&mut self, x: u32, y: u32) -> (p: &mut P)
        ensures
            final(final(self).data.elems)@ == final(old(self).data.elems)@,
    {
        cell_mut(&mut *self.data.elems, self.layout, x, y)
    }

    fn put_pixel(&mut self, x: u32, y: u32, pixel: P)
        ensures
            final(final(self).data.elems)@ == final(old(self).data.elems)@,
    {
        cell_set(&mut *self.data.elems, self.layout, x, y, pixel);
    }

    fn fill(&mut self, value: &P)
        ensures
            final(final(self).data.elems)@ == final(old(self).data.elems)@,
    {
        let rect = Rect::new(0, 0, self.layout.width, self.layout.height);
        let ghost before = self@;
        cells_fill(&mut *self.data.elems, self.layout, rect, value);
        proof {
            lemma_filled_whole(before, self@, *value);
        }
    }

    fn fill_rect(&mut self, rect: Rect, value: &P)
        ensures
            final(final(self).data.elems)@ == final(old(self).data.elems)@,
    {
        cells_fill(&mut *self.data.elems, self.layout, rect, value);
    }

    fn blit_rect<I: Image2D<P>>(&mut self, src_rect: Rect, dst_rect: Rect, img: &I) -> (r: Result<
        (),
        ImageError,
    >)
        ensures
            final(final(self).data.elems)@ == final(old(self).data.elems)@,
    {
        if src_rect.width != dst_rect.width || src_rect.height != dst_rect.height {
            return Err(
                ImageError::RectSizeMismatch {
                    source_width: src_rect.width,
                    source_height: src_rect.height,
                    destination_width: dst_rect.width,
                    destination_height: dst_rect.height,
                },
            );
        }
        if !src_rect.fits_image(img) {
            return Err(ImageError::SourceRectOutOfBounds);
        }
        if !dst_rect.fits_dimensions(self.layout.width, self.layout.height) {
            return Err(ImageError::DestinationRectOutOfBounds);
        }
        cells_blit(&mut *self.data.elems, self.layout, dst_rect, img, src_rect);
        Ok(())
    }

    fn sub_image_mut(&mut self, rect: Rect) -> (v: Image2DViewMut<'_, P>)
        ensures
            final(final(self).data.elems)@ == final(old(self).data.elems)@,
    {
        cells_window(&mut *self.data.elems, self.layout, rect)
    }

    fn enumerate_pixels_mut(&mut self) -> (it: IndexedIterMut<'_, P>)
        ensures
            final(final(self).data.elems)@ == final(old(self).data.elems)@,
    {
        let rect = Rect::new(0, 0, self.layout.width, self.layout.height);
        proof {
            lemma_window_whole(self@);
        }
        IndexedIterMut { inner: cells_iter(&mut *self.data.elems, self.layout, rect) }
    }

    fn row_mut(&mut self, y: u32) -> (r: Option<RowIterMut<'_, P>>)
        ensures
            final(final(self).data.elems)@ == final(old(self).data.elems)@,
    {
        if y < self.layout.height {
            let rect = Rect::new(0, y, self.layout.width, 1);
            proof {
                lemma_window_row(self@, y as int);
            }
            Some(cells_iter(&mut *self.data.elems, self.layout, rect))
        } else {
            None
        }
    }

    fn rows_mut(&mut self) -> (it: RowsIterMut<'_, P>)
        ensures
            final(final(self).data.elems)@ == final(old(self).data.elems)@,
    {
        let rect = Rect::new(0, 0, self.layout.width, self.layout.height);
        proof {
            lemma_window_whole(self@);
        }
        let back = self.layout.height;
        RowsIterMut { view: cells_window(&mut *self.data.elems, self.layout, rect), front: 0, back }
    }

    fn col_mut(&mut self, x: u32) -> (r: Option<ColIterMut<'_, P>>)
        ensures
            final(final(self).data.elems)@ == final(old(self).data.elems)@,
    {
        if x < self.layout.width {
            let rect = Rect::new(x, 0, 1, self.layout.height);
            proof {
                lemma_window_col(self@, x as int);
            }
            Some(cells_iter(&mut *self.data.elems, self.layout, rect))
        } else {
            None
        }
    }

    fn cols_mut(&mut self) -> (it: ColsIterMut<'_, P>)
        ensures
            final(final(self).data.elems)@ == final(old(self).data.elems)@,
    {
        let rect = Rect::new(0, 0, self.layout.width, self.layout.height);
        proof {
            lemma_window_whole(self@);
        }
        let back = self.layout.width;
        ColsIterMut { view: cells_window(&mut *self.data.elems, self.layout, rect), front: 0, back }
    }

    fn rect_iter_mut(&mut self, rect: Rect) -> (it: RectIterMut<'_, P>)
        ensures
            final(final(self).data.elems)@ == final(old(self).data.elems)@,
    {
        cells_iter(&mut *self.data.elems, self.layout, rect)
    }

    fn iter_mut(&mut self) -> (it: IterMut<'_, P>)
        ensures
            final(final(self).data.elems)@ == final(old(self).data.elems)@,
    {
        let rect = Rect::new(0, 0, self.layout.width, self.layout.height);
        proof {
            lemma_window_whole(self@);
        }
        cells_iter(&mut *self.data.elems, self.layout, rect)
    }
}


} // verus!
