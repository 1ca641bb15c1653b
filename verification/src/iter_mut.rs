//! Cursors over the pixels of a mutable window: over a row, a column, a
//! rectangle or the whole, and over the rows or the columns.
//!
//! A cursor lends out one pixel, or one row or column, at a time: what it
//! hands out has to be given up before the cursor is advanced again.

use crate::grid::{lemma_scanline_coordinate, lemma_window_col, lemma_window_row};
use crate::image2d::{Image2D, Image2DViewMut};
use crate::image2d_mut::{col_rect, lent, row_rect, same_window, Image2DMut};
use crate::rect::Rect;
use crate::traits::Pixel;
use vstd::prelude::*;

verus! {

/// A cursor over the pixels of a mutable window in scanline order, which can
/// be advanced at both ends. The pixels at the places `front..back` are left.
///
/// The fields are public so that a contract can speak of what the borrow
/// will hold when it ends.
pub struct IterMut<'a, P> {
    pub view: Image2DViewMut<'a, P>,
    pub front: usize,
    pub back: usize,
}

/// Cursor over the pixels of a rectangular region, in scanline order.
pub type RectIterMut<'a, P> = IterMut<'a, P>;

/// Cursor over the pixels of an image row, from left to right.
pub type RowIterMut<'a, P> = IterMut<'a, P>;

/// Cursor over the pixels of an image column, from top to bottom.
pub type ColIterMut<'a, P> = IterMut<'a, P>;

/// A cursor over the pixels of a mutable window in scanline order, which
/// hands out each pixel with its index `(row, column)`.
pub struct IndexedIterMut<'a, P> {
    pub inner: IterMut<'a, P>,
}

/// A cursor over the rows of a mutable window, from top to bottom, which can
/// be advanced at both ends. The rows `front..back` are left.
pub struct RowsIterMut<'a, P> {
    pub view: Image2DViewMut<'a, P>,
    pub front: u32,
    pub back: u32,
}

/// A cursor over the columns of a mutable window, from left to right, which
/// can be advanced at both ends. The columns `front..back` are left.
pub struct ColsIterMut<'a, P> {
    pub view: Image2DViewMut<'a, P>,
    pub front: u32,
    pub back: u32,
}

impl<'a, P: Pixel> IterMut<'a, P> {
    /// The invariant of the cursor.
    pub open spec fn wf(&self) -> bool {
        &&& self.view.wf()
        &&& self.front <= self.back <= self.view@.cells.len()
    }

    /// No pixel has been handed out yet.
    pub open spec fn fresh(&self) -> bool {
        self.front == 0 && self.back == self.view@.cells.len()
    }

    /// The pixels that are left, in the order in which `next` hands them out.
    pub open spec fn remaining(&self) -> Seq<P> {
        self.view@.cells.subrange(self.front as int, self.back as int)
    }

    /// `after` is the cursor `before` with the pixel at place `i` of its
    /// window replaced by `p`, and with `front..back` left.
    pub open spec fn stepped(before: Self, after: Self, i: int, p: P, front: int, back: int) -> bool {
        &&& after.wf()
        &&& after.front == front
        &&& after.back == back
        &&& same_window(before.view, after.view)
        &&& after.view@.cells == before.view@.cells.update(i, p)
    }

    /// `after` is the cursor `before`, unchanged.
    pub open spec fn stayed(before: Self, after: Self) -> bool {
        &&& after.wf()
        &&& after.front == before.front
        &&& after.back == before.back
        &&& same_window(before.view, after.view)
        &&& after.view@ == before.view@
        &&& after.view.data.elems@ == before.view.data.elems@
    }

    /// The number of pixels that are left.
    pub fn len(&self) -> (n: usize)
        requires
            self.wf(),
        ensures
            n == self.remaining().len(),
    {
        self.back - self.front
    }

    /// The index `(row, column)` of the pixel at place `i` of those that are
    /// left.
    pub fn index_of(&self, i: usize) -> (idx: (usize, usize))
        requires
            self.wf(),
            i < self.remaining().len(),
        ensures
            idx == self.view@.indexed()[self.front + i].0,
            idx.0 < self.view@.height,
            idx.1 < self.view@.width,
    {
        proof {
            lemma_scanline_coordinate(
                self.view.layout.width as int,
                self.view.layout.height as int,
                self.front + i,
            );
        }
        let w = self.view.layout.width as usize;
        ((self.front + i) / w, (self.front + i) % w)
    }

    /// Return a mutable reference to the pixel at place `i` of those that
    /// are left. What is written through it is what the window holds there
    /// afterwards.
    pub fn get_mut(&mut self, i: usize) -> (p: &mut P)
        requires
            old(self).wf(),
            i < old(self).remaining().len(),
        ensures
            *p == old(self).remaining()[i as int],
            Self::stepped(
                *old(self),
                *final(self),
                old(self).front + i,
                *final(p),
                old(self).front as int,
                old(self).back as int,
            ),
            final(final(self).view.data.elems)@ == final(old(self).view.data.elems)@,
    {
        proof {
            lemma_scanline_coordinate(
                self.view.layout.width as int,
                self.view.layout.height as int,
                self.front + i,
            );
        }
        let w = self.view.layout.width as usize;
        let at = self.front + i;
        self.view.get_pixel_mut((at % w) as u32, (at / w) as u32)
    }

    /// Set the pixel at place `i` of those that are left to the given value.
    pub fn set(&mut self, i: usize, value: P)
        requires
            old(self).wf(),
            i < old(self).remaining().len(),
        ensures
            Self::stepped(
                *old(self),
                *final(self),
                old(self).front + i,
                value,
                old(self).front as int,
                old(self).back as int,
            ),
            final(final(self).view.data.elems)@ == final(old(self).view.data.elems)@,
    {
        proof {
            lemma_scanline_coordinate(
                self.view.layout.width as int,
                self.view.layout.height as int,
                self.front + i,
            );
        }
        let w = self.view.layout.width as usize;
        let at = self.front + i;
        self.view.put_pixel((at % w) as u32, (at / w) as u32, value);
    }

    /// Lend out the first pixel that is left, if there is one.
    pub fn next(&mut self) -> (r: Option<&mut P>)
        requires
            old(self).wf(),
        ensures
            final(final(self).view.data.elems)@ == final(old(self).view.data.elems)@,
            old(self).remaining().len() == 0 ==> r is None && Self::stayed(*old(self), *final(self)),
            old(self).remaining().len() > 0 ==> (r matches Some(p) && *p == old(self).remaining()[0]
                && Self::stepped(
                *old(self),
                *final(self),
                old(self).front as int,
                *final(p),
                old(self).front + 1,
                old(self).back as int,
            )),
    {
        if self.front >= self.back {
            return None;
        }
        proof {
            lemma_scanline_coordinate(
                self.view.layout.width as int,
                self.view.layout.height as int,
                self.front as int,
            );
        }
        let w = self.view.layout.width as usize;
        let at = self.front;
        self.front = at + 1;
        Some(self.view.get_pixel_mut((at % w) as u32, (at / w) as u32))
    }

    /// Lend out the last pixel that is left, if there is one.
    pub fn next_back(&mut self) -> (r: Option<&mut P>)
        requires
            old(self).wf(),
        ensures
            final(final(self).view.data.elems)@ == final(old(self).view.data.elems)@,
            old(self).remaining().len() == 0 ==> r is None && Self::stayed(*old(self), *final(self)),
            old(self).remaining().len() > 0 ==> (r matches Some(p) && *p == old(
                self,
            ).remaining().last() && Self::stepped(
                *old(self),
                *final(self),
                old(self).back - 1,
                *final(p),
                old(self).front as int,
                old(self).back - 1,
            )),
    {
        if self.front >= self.back {
            return None;
        }
        proof {
            lemma_scanline_coordinate(
                self.view.layout.width as int,
                self.view.layout.height as int,
                self.back - 1,
            );
        }
        let w = self.view.layout.width as usize;
        let at = self.back - 1;
        self.back = at;
        Some(self.view.get_pixel_mut((at % w) as u32, (at / w) as u32))
    }
}

impl<'a, P: Pixel> IndexedIterMut<'a, P> {
    /// The invariant of the cursor.
    pub open spec fn wf(&self) -> bool {
        self.inner.wf()
    }

    /// The number of pixels that are left.
    pub fn len(&self) -> (n: usize)
        requires
            self.wf(),
        ensures
            n == self.inner.remaining().len(),
    {
        self.inner.len()
    }

    /// Lend out the first pixel that is left, with its index `(row,
    /// column)`, if there is one.
    pub fn next(&mut self) -> (r: Option<((usize, usize), &mut P)>)
        requires
            old(self).wf(),
        ensures
            final(final(self).inner.view.data.elems)@ == final(old(self).inner.view.data.elems)@,
            old(self).inner.remaining().len() == 0 ==> r is None && IterMut::stayed(
                old(self).inner,
                final(self).inner,
            ),
            old(self).inner.remaining().len() > 0 ==> (r matches Some((idx, p)) && idx == old(
                self,
            ).inner.view@.indexed()[old(self).inner.front as int].0 && *p == old(
                self,
            ).inner.remaining()[0] && IterMut::stepped(
                old(self).inner,
                final(self).inner,
                old(self).inner.front as int,
                *final(p),
                old(self).inner.front + 1,
                old(self).inner.back as int,
            )),
    {
        if self.inner.front >= self.inner.back {
            return None;
        }
        let idx = self.inner.index_of(0);
        match self.inner.next() {
            Some(p) => Some((idx, p)),
            None => None,
        }
    }
}

impl<'a, P: Pixel> RowsIterMut<'a, P> {
    /// The invariant of the cursor.
    pub open spec fn wf(&self) -> bool {
        &&& self.view.wf()
        &&& self.front <= self.back <= self.view@.height
    }

    /// No row has been handed out yet.
    pub open spec fn fresh(&self) -> bool {
        self.front == 0 && self.back == self.view@.height
    }

    /// The number of rows that are left.
    pub fn len(&self) -> (n: usize)
        requires
            self.wf(),
        ensures
            n == self.back - self.front,
    {
        (self.back - self.front) as usize
    }

    /// Lend out a cursor over the pixels of row `i` of those that are left.
    pub fn row_mut(&mut self, i: u32) -> (it: RowIterMut<'_, P>)
        requires
            old(self).wf(),
            i < old(self).back - old(self).front,
        ensures
            lent(
                old(self).view,
                final(self).view,
                row_rect(old(self).view@.width, (old(self).front + i) as u32),
                it.view,
                final(it.view.data.elems)@,
            ),
            it.wf(),
            it.fresh(),
            it.view@.cells == old(self).view@.row(old(self).front + i),
            final(self).front == old(self).front,
            final(self).back == old(self).back,
            final(final(self).view.data.elems)@ == final(old(self).view.data.elems)@,
    {
        let y = self.front + i;
        proof {
            lemma_window_row(self.view@, y as int);
            assert(self.view.layout.width * 1 == self.view.layout.width) by (nonlinear_arith);
        }
        let rect = Rect::new(0, y, self.view.layout.width, 1);
        let back = self.view.layout.width as usize;
        IterMut { view: self.view.sub_image_mut(rect), front: 0, back }
    }

    /// Lend out a cursor over the pixels of the first row that is left, if
    /// there is one.
    pub fn next(&mut self) -> (r: Option<RowIterMut<'_, P>>)
        requires
            old(self).wf(),
        ensures
            final(self).back == old(self).back,
            final(final(self).view.data.elems)@ == final(old(self).view.data.elems)@,
            old(self).front == old(self).back ==> r is None && final(self).front == old(self).front
                && final(self).view@ == old(self).view@ && same_window(
                old(self).view,
                final(self).view,
            ),
            old(self).front < old(self).back ==> (r matches Some(it) && lent(
                old(self).view,
                final(self).view,
                row_rect(old(self).view@.width, old(self).front),
                it.view,
                final(it.view.data.elems)@,
            ) && it.wf() && it.fresh() && it.view@.cells == old(self).view@.row(
                old(self).front as int,
            ) && final(self).front == old(self).front + 1),
    {
        if self.front >= self.back {
            return None;
        }
        let y = self.front;
        proof {
            lemma_window_row(self.view@, y as int);
            assert(self.view.layout.width * 1 == self.view.layout.width) by (nonlinear_arith);
        }
        self.front = y + 1;
        let rect = Rect::new(0, y, self.view.layout.width, 1);
        let back = self.view.layout.width as usize;
        Some(IterMut { view: self.view.sub_image_mut(rect), front: 0, back })
    }

    /// Lend out a cursor over the pixels of the last row that is left, if
    /// there is one.
    pub fn next_back(&mut self) -> (r: Option<RowIterMut<'_, P>>)
        requires
            old(self).wf(),
        ensures
            final(self).front == old(self).front,
            final(final(self).view.data.elems)@ == final(old(self).view.data.elems)@,
            old(self).front == old(self).back ==> r is None && final(self).back == old(self).back
                && final(self).view@ == old(self).view@ && same_window(
                old(self).view,
                final(self).view,
            ),
            old(self).front < old(self).back ==> (r matches Some(it) && lent(
                old(self).view,
                final(self).view,
                row_rect(old(self).view@.width, (old(self).back - 1) as u32),
                it.view,
                final(it.view.data.elems)@,
            ) && it.wf() && it.fresh() && it.view@.cells == old(self).view@.row(old(self).back - 1)
                && final(self).back == old(self).back - 1),
    {
        if self.front >= self.back {
            return None;
        }
        let y = self.back - 1;
        proof {
            lemma_window_row(self.view@, y as int);
            assert(self.view.layout.width * 1 == self.view.layout.width) by (nonlinear_arith);
        }
        self.back = y;
        let rect = Rect::new(0, y, self.view.layout.width, 1);
        let back = self.view.layout.width as usize;
        Some(IterMut { view: self.view.sub_image_mut(rect), front: 0, back })
    }
}

impl<'a, P: Pixel> ColsIterMut<'a, P> {
    /// The invariant of the cursor.
    pub open spec fn wf(&self) -> bool {
        &&& self.view.wf()
        &&& self.front <= self.back <= self.view@.width
    }

    /// No column has been handed out yet.
    pub open spec fn fresh(&self) -> bool {
        self.front == 0 && self.back == self.view@.width
    }

    /// The number of columns that are left.
    pub fn len(&self) -> (n: usize)
        requires
            self.wf(),
        ensures
            n == self.back - self.front,
    {
        (self.back - self.front) as usize
    }

    /// Lend out a cursor over the pixels of column `i` of those that are left.
    pub fn col_mut(&mut self, i: u32) -> (it: ColIterMut<'_, P>)
        requires
            old(self).wf(),
            i < old(self).back - old(self).front,
        ensures
            lent(
                old(self).view,
                final(self).view,
                col_rect(old(self).view@.height, (old(self).front + i) as u32),
                it.view,
                final(it.view.data.elems)@,
            ),
            it.wf(),
            it.fresh(),
            it.view@.cells == old(self).view@.col(old(self).front + i),
            final(self).front == old(self).front,
            final(self).back == old(self).back,
            final(final(self).view.data.elems)@ == final(old(self).view.data.elems)@,
    {
        let x = self.front + i;
        proof {
            lemma_window_col(self.view@, x as int);
            assert(1 * self.view.layout.height == self.view.layout.height) by (nonlinear_arith);
        }
        let rect = Rect::new(x, 0, 1, self.view.layout.height);
        let back = self.view.layout.height as usize;
        IterMut { view: self.view.sub_image_mut(rect), front: 0, back }
    }

    /// Lend out a cursor over the pixels of the first column that is left,
    /// if there is one.
    pub fn next(&mut self) -> (r: Option<ColIterMut<'_, P>>)
        requires
            old(self).wf(),
        ensures
            final(self).back == old(self).back,
            final(final(self).view.data.elems)@ == final(old(self).view.data.elems)@,
            old(self).front == old(self).back ==> r is None && final(self).front == old(self).front
                && final(self).view@ == old(self).view@ && same_window(
                old(self).view,
                final(self).view,
            ),
            old(self).front < old(self).back ==> (r matches Some(it) && lent(
                old(self).view,
                final(self).view,
                col_rect(old(self).view@.height, old(self).front),
                it.view,
                final(it.view.data.elems)@,
            ) && it.wf() && it.fresh() && it.view@.cells == old(self).view@.col(
                old(self).front as int,
            ) && final(self).front == old(self).front + 1),
    {
        if self.front >= self.back {
            return None;
        }
        let x = self.front;
        proof {
            lemma_window_col(self.view@, x as int);
            assert(1 * self.view.layout.height == self.view.layout.height) by (nonlinear_arith);
        }
        self.front = x + 1;
        let rect = Rect::new(x, 0, 1, self.view.layout.height);
        let back = self.view.layout.height as usize;
        Some(IterMut { view: self.view.sub_image_mut(rect), front: 0, back })
    }

    /// Lend out a cursor over the pixels of the last column that is left, if
    /// there is one.
    pub fn next_back(&mut self) -> (r: Option<ColIterMut<'_, P>>)
        requires
            old(self).wf(),
        ensures
            final(self).front == old(self).front,
            final(final(self).view.data.elems)@ == final(old(self).view.data.elems)@,
            old(self).front == old(self).back ==> r is None && final(self).back == old(self).back
                && final(self).view@ == old(self).view@ && same_window(
                old(self).view,
                final(self).view,
            ),
            old(self).front < old(self).back ==> (r matches Some(it) && lent(
                old(self).view,
                final(self).view,
                col_rect(old(self).view@.height, (old(self).back - 1) as u32),
                it.view,
                final(it.view.data.elems)@,
            ) && it.wf() && it.fresh() && it.view@.cells == old(self).view@.col(old(self).back - 1)
                && final(self).back == old(self).back - 1),
    {
        if self.front >= self.back {
            return None;
        }
        let x = self.back - 1;
        proof {
            lemma_window_col(self.view@, x as int);
            assert(1 * self.view.layout.height == self.view.layout.height) by (nonlinear_arith);
        }
        self.back = x;
        let rect = Rect::new(x, 0, 1, self.view.layout.height);
        let back = self.view.layout.height as usize;
        Some(IterMut { view: self.view.sub_image_mut(rect), front: 0, back })
    }
}

} // verus!
