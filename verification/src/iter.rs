//! Cursors over the pixels of an image: over a row, a column, a rectangle or
//! the whole, and over the rows or the columns.

use crate::grid::{lemma_scanline_coordinate, lemma_window_col, lemma_window_row, Layout};
use crate::rect::Rect;
use vstd::prelude::*;

verus! {

/// A cursor over pixels in scanline order, which can be advanced at both
/// ends. It knows how many pixels are left.
pub struct Iter<'a, P> {
    elems: &'a [P],
    layout: Layout,
    front: usize,
    back: usize,
}

/// Cursor over a rectangular region, in scanline order.
pub type RectIter<'a, P> = Iter<'a, P>;

/// Cursor over the pixels of an image row, from left to right.
pub type RowIter<'a, P> = Iter<'a, P>;

/// Cursor over the pixels of an image column, from top to bottom.
pub type ColIter<'a, P> = Iter<'a, P>;

impl<'a, P> View for Iter<'a, P> {
    type V = Seq<P>;

    /// The pixels that are left, in the order in which `next` hands them out.
    closed spec fn view(&self) -> Seq<P> {
        self.layout.grid(self.elems@).cells.subrange(self.front as int, self.back as int)
    }
}

impl<'a, P> Iter<'a, P> {
    /// The invariant of the cursor.
    pub closed spec fn wf(&self) -> bool {
        &&& self.layout.fits(self.elems@.len())
        &&& self.front <= self.back <= self.layout.width * self.layout.height
    }

    /// A cursor over all pixels that the window `layout` shows of `elems`.
    pub(crate) fn over(elems: &'a [P], layout: Layout) -> (it: Iter<'a, P>)
        requires
            layout.fits(elems@.len()),
        ensures
            it.wf(),
            it@ == layout.grid(elems@).cells,
    {
        proof {
            layout.lemma_area(elems@.len());
            assert(layout.grid(elems@).cells.subrange(0, layout.width * layout.height)
                =~= layout.grid(elems@).cells);
        }
        proof {
            assert(elems.len() <= usize::MAX);
        }
        Iter { elems, layout, front: 0, back: (layout.width as usize) * (layout.height as usize) }
    }

    /// The pixel at place `i` of the scanline order of the window.
    fn cell(&self, i: usize) -> (p: &'a P)
        requires
            self.layout.fits(self.elems@.len()),
            i < self.layout.width * self.layout.height,
        ensures
            *p == self.layout.grid(self.elems@).cells[i as int],
    {
        let elems: &'a [P] = self.elems;
        let w = self.layout.width as usize;
        proof {
            lemma_scanline_coordinate(
                self.layout.width as int,
                self.layout.height as int,
                i as int,
            );
            self.layout.lemma_grid_at(
                elems@,
                (i as int) % (w as int),
                (i as int) / (w as int),
            );
        }
        let x = (i % w) as u32;
        let y = (i / w) as u32;
        &elems[self.layout.place(elems.len(), x, y)]
    }

    /// The number of pixels that are left.
    pub fn len(&self) -> (n: usize)
        requires
            self.wf(),
        ensures
            n == self@.len(),
    {
        self.back - self.front
    }

    /// Hand out the first pixel that is left, if there is one.
    pub fn next(&mut self) -> (r: Option<&'a P>)
        requires
            old(self).wf(),
        ensures
            final(self).wf(),
            old(self)@.len() == 0 ==> r is None && final(self)@ == old(self)@,
            old(self)@.len() > 0 ==> r == Some(&old(self)@[0]) && final(self)@ == old(self)@.drop_first(),
    {
        if self.front >= self.back {
            return None;
        }
        let p = self.cell(self.front);
        proof {
            assert(self.layout.grid(self.elems@).cells.subrange(self.front + 1, self.back as int)
                =~= self@.drop_first());
        }
        self.front = self.front + 1;
        Some(p)
    }

    /// Hand out the last pixel that is left, if there is one.
    pub fn next_back(&mut self) -> (r: Option<&'a P>)
        requires
            old(self).wf(),
        ensures
            final(self).wf(),
            old(self)@.len() == 0 ==> r is None && final(self)@ == old(self)@,
            old(self)@.len() > 0 ==> r == Some(&old(self)@.last()) && final(self)@ == old(
                self,
            )@.drop_last(),
    {
        if self.front >= self.back {
            return None;
        }
        let p = self.cell(self.back - 1);
        proof {
            assert(self.layout.grid(self.elems@).cells.subrange(self.front as int, self.back - 1)
                =~= self@.drop_last());
        }
        self.back = self.back - 1;
        Some(p)
    }

    /// Collect the pixels that are left, in order.
    pub fn to_vec(self) -> (v: Vec<&'a P>)
        requires
            self.wf(),
        ensures
            v@.len() == self@.len(),
            forall|i: int| 0 <= i < v@.len() ==> *(#[trigger] v@[i]) == self@[i],
    {
        let mut v: Vec<&'a P> = Vec::new();
        let mut i = self.front;
        while i < self.back
            invariant
                self.wf(),
                self.front <= i <= self.back,
                v@.len() == i - self.front,
                forall|k: int| 0 <= k < v@.len() ==> *(#[trigger] v@[k]) == self@[k],
            decreases self.back - i,
        {
            let p = self.cell(i);
            v.push(p);
            i = i + 1;
        }
        v
    }
}

/// A cursor over the pixels of an image in scanline order, which hands out
/// each pixel with its index `(row, column)`.
pub struct IndexedIter<'a, P> {
    inner: Iter<'a, P>,
}

impl<'a, P> View for IndexedIter<'a, P> {
    type V = Seq<((usize, usize), P)>;

    /// The pixels that are left, each with its index `(row, column)`.
    closed spec fn view(&self) -> Seq<((usize, usize), P)> {
        self.inner.layout.grid(self.inner.elems@).indexed().subrange(
            self.inner.front as int,
            self.inner.back as int,
        )
    }
}

impl<'a, P> IndexedIter<'a, P> {
    /// The invariant of the cursor.
    pub closed spec fn wf(&self) -> bool {
        self.inner.wf()
    }

    /// A cursor over all pixels that the window `layout` shows of `elems`.
    pub(crate) fn over(elems: &'a [P], layout: Layout) -> (it: IndexedIter<'a, P>)
        requires
            layout.fits(elems@.len()),
        ensures
            it.wf(),
            it@ == layout.grid(elems@).indexed(),
    {
        proof {
            layout.lemma_area(elems@.len());
            assert(layout.grid(elems@).indexed().subrange(0, layout.width * layout.height)
                =~= layout.grid(elems@).indexed());
        }
        proof {
            assert(elems.len() <= usize::MAX);
        }
        let back = (layout.width as usize) * (layout.height as usize);
        IndexedIter { inner: Iter { elems, layout, front: 0, back } }
    }

    /// The number of pixels that are left.
    pub fn len(&self) -> (n: usize)
        requires
            self.wf(),
        ensures
            n == self@.len(),
    {
        self.inner.back - self.inner.front
    }

    /// Hand out the first pixel that is left, with its index, if there is one.
    pub fn next(&mut self) -> (r: Option<((usize, usize), &'a P)>)
        requires
            old(self).wf(),
        ensures
            final(self).wf(),
            old(self)@.len() == 0 ==> r is None && final(self)@ == old(self)@,
            old(self)@.len() > 0 ==> r == Some((old(self)@[0].0, &old(self)@[0].1)) && final(self)@
                == old(self)@.drop_first(),
    {
        if self.inner.front >= self.inner.back {
            return None;
        }
        let i = self.inner.front;
        let w = self.inner.layout.width as usize;
        proof {
            lemma_scanline_coordinate(
                self.inner.layout.width as int,
                self.inner.layout.height as int,
                i as int,
            );
            assert(self.inner.layout.grid(self.inner.elems@).indexed().subrange(
                i + 1,
                self.inner.back as int,
            ) =~= self@.drop_first());
        }
        let p = self.inner.cell(i);
        self.inner.front = i + 1;
        Some(((i / w, i % w), p))
    }
}

/// A cursor over the rows of an image, from top to bottom, which can be
/// advanced at both ends.
pub struct RowsIter<'a, P> {
    elems: &'a [P],
    layout: Layout,
    front: u32,
    back: u32,
}

impl<'a, P> View for RowsIter<'a, P> {
    type V = Seq<Seq<P>>;

    /// The rows that are left, from top to bottom.
    closed spec fn view(&self) -> Seq<Seq<P>> {
        self.layout.grid(self.elems@).rows().subrange(self.front as int, self.back as int)
    }
}

impl<'a, P> RowsIter<'a, P> {
    /// The invariant of the cursor.
    pub closed spec fn wf(&self) -> bool {
        &&& self.elems@.len() <= usize::MAX
        &&& self.layout.fits(self.elems@.len())
        &&& self.front <= self.back <= self.layout.height
    }

    /// A cursor over all rows that the window `layout` shows of `elems`.
    pub(crate) fn over(elems: &'a [P], layout: Layout) -> (it: RowsIter<'a, P>)
        requires
            layout.fits(elems@.len()),
        ensures
            it.wf(),
            it@ == layout.grid(elems@).rows(),
    {
        proof {
            assert(layout.grid(elems@).rows().subrange(0, layout.height as int) =~= layout.grid(
                elems@,
            ).rows());
        }
        proof {
            assert(elems.len() <= usize::MAX);
        }
        RowsIter { elems, layout, front: 0, back: layout.height }
    }

    /// A cursor over row `y`.
    fn row(&self, y: u32) -> (it: RowIter<'a, P>)
        requires
            self.elems@.len() <= usize::MAX,
            self.layout.fits(self.elems@.len()),
            y < self.layout.height,
        ensures
            it.wf(),
            it@ == self.layout.grid(self.elems@).row(y as int),
    {
        let elems: &'a [P] = self.elems;
        let rect = Rect::new(0, y, self.layout.width, 1);
        proof {
            self.layout.lemma_sub_grid(elems@, rect);
            lemma_window_row(self.layout.grid(elems@), y as int);
        }
        Iter::over(elems, self.layout.window(elems.len(), rect))
    }

    /// The number of rows that are left.
    pub fn len(&self) -> (n: usize)
        requires
            self.wf(),
        ensures
            n == self@.len(),
    {
        (self.back - self.front) as usize
    }

    /// Hand out a cursor over the first row that is left, if there is one.
    pub fn next(&mut self) -> (r: Option<RowIter<'a, P>>)
        requires
            old(self).wf(),
        ensures
            final(self).wf(),
            old(self)@.len() == 0 ==> r is None && final(self)@ == old(self)@,
            old(self)@.len() > 0 ==> final(self)@ == old(self)@.drop_first(),
            old(self)@.len() > 0 ==> (r matches Some(row) && row.wf() && row@ == old(self)@[0]),
    {
        if self.front >= self.back {
            return None;
        }
        let row = self.row(self.front);
        proof {
            assert(self.layout.grid(self.elems@).rows().subrange(self.front + 1, self.back as int)
                =~= self@.drop_first());
        }
        self.front = self.front + 1;
        Some(row)
    }

    /// Hand out a cursor over the last row that is left, if there is one.
    pub fn next_back(&mut self) -> (r: Option<RowIter<'a, P>>)
        requires
            old(self).wf(),
        ensures
            final(self).wf(),
            old(self)@.len() == 0 ==> r is None && final(self)@ == old(self)@,
            old(self)@.len() > 0 ==> final(self)@ == old(self)@.drop_last(),
            old(self)@.len() > 0 ==> (r matches Some(row) && row.wf() && row@ == old(self)@.last()),
    {
        if self.front >= self.back {
            return None;
        }
        let row = self.row(self.back - 1);
        proof {
            assert(self.layout.grid(self.elems@).rows().subrange(self.front as int, self.back - 1)
                =~= self@.drop_last());
        }
        self.back = self.back - 1;
        Some(row)
    }
}

/// A cursor over the columns of an image, from left to right, which can be
/// advanced at both ends.
pub struct ColsIter<'a, P> {
    elems: &'a [P],
    layout: Layout,
    front: u32,
    back: u32,
}

impl<'a, P> View for ColsIter<'a, P> {
    type V = Seq<Seq<P>>;

    /// The columns that are left, from left to right.
    closed spec fn view(&self) -> Seq<Seq<P>> {
        self.layout.grid(self.elems@).cols().subrange(self.front as int, self.back as int)
    }
}

impl<'a, P> ColsIter<'a, P> {
    /// The invariant of the cursor.
    pub closed spec fn wf(&self) -> bool {
        &&& self.elems@.len() <= usize::MAX
        &&& self.layout.fits(self.elems@.len())
        &&& self.front <= self.back <= self.layout.width
    }

    /// A cursor over all columns that the window `layout` shows of `elems`.
    pub(crate) fn over(elems: &'a [P], layout: Layout) -> (it: ColsIter<'a, P>)
        requires
            layout.fits(elems@.len()),
        ensures
            it.wf(),
            it@ == layout.grid(elems@).cols(),
    {
        proof {
            assert(layout.grid(elems@).cols().subrange(0, layout.width as int) =~= layout.grid(
                elems@,
            ).cols());
        }
        proof {
            assert(elems.len() <= usize::MAX);
        }
        ColsIter { elems, layout, front: 0, back: layout.width }
    }

    /// A cursor over column `x`.
    fn col(&self, x: u32) -> (it: ColIter<'a, P>)
        requires
            self.elems@.len() <= usize::MAX,
            self.layout.fits(self.elems@.len()),
            x < self.layout.width,
        ensures
            it.wf(),
            it@ == self.layout.grid(self.elems@).col(x as int),
    {
        let elems: &'a [P] = self.elems;
        let rect = Rect::new(x, 0, 1, self.layout.height);
        proof {
            self.layout.lemma_sub_grid(elems@, rect);
            lemma_window_col(self.layout.grid(elems@), x as int);
        }
        Iter::over(elems, self.layout.window(elems.len(), rect))
    }

    /// The number of columns that are left.
    pub fn len(&self) -> (n: usize)
        requires
            self.wf(),
        ensures
            n == self@.len(),
    {
        (self.back - self.front) as usize
    }

    /// Hand out a cursor over the first column that is left, if there is one.
    pub fn next(&mut self) -> (r: Option<ColIter<'a, P>>)
        requires
            old(self).wf(),
        ensures
            final(self).wf(),
            old(self)@.len() == 0 ==> r is None && final(self)@ == old(self)@,
            old(self)@.len() > 0 ==> final(self)@ == old(self)@.drop_first(),
            old(self)@.len() > 0 ==> (r matches Some(col) && col.wf() && col@ == old(self)@[0]),
    {
        if self.front >= self.back {
            return None;
        }
        let col = self.col(self.front);
        proof {
            assert(self.layout.grid(self.elems@).cols().subrange(self.front + 1, self.back as int)
                =~= self@.drop_first());
        }
        self.front = self.front + 1;
        Some(col)
    }

    /// Hand out a cursor over the last column that is left, if there is one.
    pub fn next_back(&mut self) -> (r: Option<ColIter<'a, P>>)
        requires
            old(self).wf(),
        ensures
            final(self).wf(),
            old(self)@.len() == 0 ==> r is None && final(self)@ == old(self)@,
            old(self)@.len() > 0 ==> final(self)@ == old(self)@.drop_last(),
            old(self)@.len() > 0 ==> (r matches Some(col) && col.wf() && col@ == old(self)@.last()),
    {
        if self.front >= self.back {
            return None;
        }
        let col = self.col(self.back - 1);
        proof {
            assert(self.layout.grid(self.elems@).cols().subrange(self.front as int, self.back - 1)
                =~= self@.drop_last());
        }
        self.back = self.back - 1;
        Some(col)
    }
}

} // verus!
