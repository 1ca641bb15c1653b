//! The mathematical model of an image: its dimensions and its pixels in
//! scanline order, and the way a window lies in a backing store.

use crate::rect::Rect;
use vstd::arithmetic::div_mod::lemma_fundamental_div_mod_converse;
use vstd::arithmetic::mul::{lemma_mul_inequality, lemma_mul_is_distributive_add_other_way};
use vstd::prelude::*;

verus! {

/// What an image is: `width * height` pixels, row after row, each row from
/// left to right.
pub struct Grid<P> {
    pub width: nat,
    pub height: nat,
    pub cells: Seq<P>,
}

impl<P> Grid<P> {
    /// The number of pixels is the product of the dimensions.
    pub open spec fn wf(self) -> bool {
        self.cells.len() == self.width * self.height
    }

    /// `(x, y)` is a coordinate of the grid: column `x` of row `y`.
    pub open spec fn holds(self, x: int, y: int) -> bool {
        0 <= x < self.width && 0 <= y < self.height
    }

    /// The pixel in column `x` of row `y`.
    pub open spec fn at(self, x: int, y: int) -> P {
        self.cells[y * self.width + x]
    }

    /// The grid of the given dimensions that holds `f(x, y)` at `(x, y)`.
    pub open spec fn from_fn(width: nat, height: nat, f: spec_fn(int, int) -> P) -> Grid<P> {
        Grid {
            width,
            height,
            cells: Seq::new(width * height, |i: int| f(i % (width as int), i / (width as int))),
        }
    }

    /// The part of the grid that lies in `rect`, as a grid of its own.
    pub open spec fn window(self, rect: Rect) -> Grid<P> {
        Grid::from_fn(
            rect.width as nat,
            rect.height as nat,
            |x: int, y: int| self.at(rect.left + x, rect.top + y),
        )
    }

    /// The grid with the pixels of `rect` taken from `inner`, whose origin
    /// lies at the top-left corner of `rect`.
    pub open spec fn with_window(self, rect: Rect, inner: Grid<P>) -> Grid<P> {
        Grid::from_fn(
            self.width,
            self.height,
            |x: int, y: int|
                if rect.spec_holds(x, y) {
                    inner.at(x - rect.left, y - rect.top)
                } else {
                    self.at(x, y)
                },
        )
    }

    /// The grid with the pixel at `(x, y)` replaced by `p`.
    pub open spec fn with_cell(self, x: int, y: int, p: P) -> Grid<P> {
        Grid { width: self.width, height: self.height, cells: self.cells.update(y * self.width + x, p) }
    }

    /// Row `y`, from left to right.
    pub open spec fn row(self, y: int) -> Seq<P> {
        Seq::new(self.width, |x: int| self.at(x, y))
    }

    /// Column `x`, from top to bottom.
    pub open spec fn col(self, x: int) -> Seq<P> {
        Seq::new(self.height, |y: int| self.at(x, y))
    }

    /// The pixels in scanline order, each with its index `(row, column)`.
    pub open spec fn indexed(self) -> Seq<((usize, usize), P)> {
        Seq::new(
            self.cells.len(),
            |i: int|
                (
                    ((i / (self.width as int)) as usize, (i % (self.width as int)) as usize),
                    self.cells[i],
                ),
        )
    }

    /// The rows, from top to bottom.
    pub open spec fn rows(self) -> Seq<Seq<P>> {
        Seq::new(self.height, |y: int| self.row(y))
    }

    /// The columns, from left to right.
    pub open spec fn cols(self) -> Seq<Seq<P>> {
        Seq::new(self.width, |x: int| self.col(x))
    }
}

/// The place of `(x, y)` in scanline order, and back again.
pub proof fn lemma_scanline_index(width: int, height: int, x: int, y: int)
    requires
        0 <= x < width,
        0 <= y < height,
    ensures
        0 <= y * width + x < width * height,
        (y * width + x) / width == y,
        (y * width + x) % width == x,
{
    lemma_fundamental_div_mod_converse(y * width + x, width, y, x);
    assert(y * width + x < width * height) by (nonlinear_arith)
        requires
            0 <= x < width,
            0 <= y < height,
    ;
    assert(0 <= y * width) by (nonlinear_arith)
        requires
            0 <= y,
            0 < width,
    ;
}

/// Every place in scanline order is the place of one coordinate.
pub proof fn lemma_scanline_coordinate(width: int, height: int, i: int)
    requires
        0 <= i < width * height,
        0 <= width,
        0 <= height,
    ensures
        0 <= i % width < width,
        0 <= i / width < height,
        i == (i / width) * width + i % width,
{
    assert(width > 0) by (nonlinear_arith)
        requires
            0 <= i < width * height,
            0 <= width,
    ;
    vstd::arithmetic::div_mod::lemma_fundamental_div_mod(i, width);
    vstd::arithmetic::div_mod::lemma_mod_bound(i, width);
    assert(width * (i / width) == (i / width) * width) by (nonlinear_arith);
    assert(0 <= i / width < height) by (nonlinear_arith)
        requires
            0 <= i < width * height,
            0 < width,
            i == (i / width) * width + i % width,
            0 <= i % width < width,
    ;
}

/// A grid made by `from_fn` holds `f(x, y)` at every coordinate `(x, y)`.
pub proof fn lemma_from_fn<P>(width: nat, height: nat, f: spec_fn(int, int) -> P, x: int, y: int)
    requires
        0 <= x < width,
        0 <= y < height,
    ensures
        Grid::from_fn(width, height, f).wf(),
        Grid::from_fn(width, height, f).at(x, y) == f(x, y),
{
    lemma_scanline_index(width as int, height as int, x, y);
}

/// A well-formed grid that holds `f(x, y)` at every coordinate `(x, y)` is
/// the grid that `from_fn` makes of `f`.
pub proof fn lemma_is_from_fn<P>(g: Grid<P>, f: spec_fn(int, int) -> P)
    requires
        g.wf(),
        forall|x: int, y: int| g.holds(x, y) ==> g.at(x, y) == f(x, y),
    ensures
        g == Grid::from_fn(g.width, g.height, f),
{
    let h = Grid::from_fn(g.width, g.height, f);
    assert forall|x: int, y: int| g.holds(x, y) implies g.at(x, y) == h.at(x, y) by {
        lemma_from_fn(g.width, g.height, f, x, y);
    }
    lemma_grid_ext(g, h);
}

/// Two well-formed grids of the same dimensions that agree at every
/// coordinate are the same grid.
pub proof fn lemma_grid_ext<P>(a: Grid<P>, b: Grid<P>)
    requires
        a.wf(),
        b.wf(),
        a.width == b.width,
        a.height == b.height,
        forall|x: int, y: int| a.holds(x, y) ==> a.at(x, y) == b.at(x, y),
    ensures
        a == b,
{
    assert forall|i: int| 0 <= i < a.cells.len() implies a.cells[i] == b.cells[i] by {
        lemma_scanline_coordinate(a.width as int, a.height as int, i);
        let x = i % (a.width as int);
        let y = i / (a.width as int);
        assert(a.holds(x, y));
        assert(a.at(x, y) == b.at(x, y));
    }
    assert(a.cells =~= b.cells);
}

/// A window holds, at each of its own coordinates, the pixel that the grid
/// holds at that coordinate moved by the window's top-left corner.
pub proof fn lemma_window_at<P>(g: Grid<P>, rect: Rect, x: int, y: int)
    requires
        0 <= x < rect.width,
        0 <= y < rect.height,
    ensures
        g.window(rect).wf(),
        g.window(rect).width == rect.width,
        g.window(rect).height == rect.height,
        g.window(rect).at(x, y) == g.at(rect.left + x, rect.top + y),
{
    lemma_from_fn(
        rect.width as nat,
        rect.height as nat,
        |x: int, y: int| g.at(rect.left + x, rect.top + y),
        x,
        y,
    );
}

/// A grid made of `width * height` pixels in scanline order holds them in that
/// order: read row after row, each row from left to right, it gives them back
/// as they were handed over.
pub proof fn lemma_round_trip<P>(width: u32, height: u32, cells: Seq<P>)
    requires
        cells.len() == width * height,
    ensures
        ({
            let g = Grid { width: width as nat, height: height as nat, cells };
            &&& g.wf()
            &&& g.cells == cells
            &&& forall|x: int, y: int| g.holds(x, y) ==> #[trigger] g.at(x, y) == cells[y * width + x]
            &&& forall|i: int|
                0 <= i < cells.len() ==> #[trigger] cells[i] == g.at(
                    i % (width as int),
                    i / (width as int),
                )
            &&& forall|y: int| 0 <= y < height ==> #[trigger] g.row(y) == cells.subrange(
                y * width,
                y * width + width,
            )
        }),
{
    let g = Grid { width: width as nat, height: height as nat, cells };
    assert forall|i: int| 0 <= i < cells.len() implies #[trigger] cells[i] == g.at(
        i % (width as int),
        i / (width as int),
    ) by {
        lemma_scanline_coordinate(width as int, height as int, i);
    }
    assert forall|y: int| 0 <= y < height implies #[trigger] g.row(y) == cells.subrange(
        y * width,
        y * width + width,
    ) by {
        if width > 0 {
            lemma_scanline_index(width as int, height as int, 0, y);
            lemma_scanline_index(width as int, height as int, width - 1, y);
        } else {
            assert(y * width == 0) by (nonlinear_arith)
                requires
                    width == 0,
            ;
        }
        assert(g.row(y) =~= cells.subrange(y * width, y * width + width));
    }
}

/// A window on an image that was generated from `f` holds, at each of its
/// own coordinates `(x, y)`, what `f` gives for that coordinate moved by the
/// window's top-left corner; read in scanline order, the pixel at index
/// `(row, column)` is `f(left + column, top + row)`.
pub proof fn lemma_generated_window<P>(
    width: u32,
    height: u32,
    f: spec_fn(int, int) -> P,
    rect: Rect,
    x: int,
    y: int,
)
    requires
        rect.spec_fits(width as int, height as int),
        0 <= x < rect.width,
        0 <= y < rect.height,
    ensures
        ({
            let sub = Grid::from_fn(width as nat, height as nat, f).window(rect);
            &&& sub.wf()
            &&& sub.width == rect.width
            &&& sub.height == rect.height
            &&& sub.at(x, y) == f(rect.left + x, rect.top + y)
            &&& sub.indexed()[y * rect.width + x] == ((y as usize, x as usize), f(rect.left + x, rect.top + y))
        }),
{
    let g = Grid::from_fn(width as nat, height as nat, f);
    lemma_from_fn(width as nat, height as nat, f, rect.left + x, rect.top + y);
    lemma_window_at(g, rect, x, y);
    lemma_scanline_index(rect.width as int, rect.height as int, x, y);
}

/// The window on one row holds that row.
pub proof fn lemma_window_row<P>(g: Grid<P>, y: int)
    requires
        0 <= y < g.height,
        g.width <= u32::MAX,
        g.height <= u32::MAX,
    ensures
        g.window(Rect { left: 0, top: y as u32, width: g.width as u32, height: 1 }).cells == g.row(y),
{
    let rect = Rect { left: 0, top: y as u32, width: g.width as u32, height: 1 };
    let a = g.window(rect).cells;
    let b = g.row(y);
    assert(g.width * 1 == g.width) by (nonlinear_arith);
    assert forall|i: int| 0 <= i < a.len() implies a[i] == b[i] by {
        lemma_scanline_coordinate(g.width as int, 1, i);
    }
    assert(a =~= b);
}

/// The window on one column holds that column.
pub proof fn lemma_window_col<P>(g: Grid<P>, x: int)
    requires
        0 <= x < g.width,
        g.width <= u32::MAX,
        g.height <= u32::MAX,
    ensures
        g.window(Rect { left: x as u32, top: 0, width: 1, height: g.height as u32 }).cells == g.col(x),
{
    let rect = Rect { left: x as u32, top: 0, width: 1, height: g.height as u32 };
    let a = g.window(rect).cells;
    let b = g.col(x);
    assert(1 * g.height == g.height) by (nonlinear_arith);
    assert forall|i: int| 0 <= i < a.len() implies a[i] == b[i] by {
        lemma_scanline_coordinate(1, g.height as int, i);
    }
    assert(a =~= b);
}

/// The window on the whole of a grid is the grid.
pub proof fn lemma_window_whole<P>(g: Grid<P>)
    requires
        g.wf(),
        g.width <= u32::MAX,
        g.height <= u32::MAX,
    ensures
        g.window(Rect { left: 0, top: 0, width: g.width as u32, height: g.height as u32 }) == g,
{
    let rect = Rect { left: 0, top: 0, width: g.width as u32, height: g.height as u32 };
    let a = g.window(rect);
    assert forall|x: int, y: int| a.holds(x, y) implies a.at(x, y) == g.at(x, y) by {
        lemma_window_at(g, rect, x, y);
    }
    lemma_grid_ext(a, g);
}

/// Replacing a window changes the pixels inside the rectangle, where the
/// grid then holds what the window holds, and no pixel outside it.
pub proof fn lemma_with_window_at<P>(g: Grid<P>, rect: Rect, inner: Grid<P>, x: int, y: int)
    requires
        g.holds(x, y),
    ensures
        g.with_window(rect, inner).wf(),
        g.with_window(rect, inner).width == g.width,
        g.with_window(rect, inner).height == g.height,
        rect.spec_holds(x, y) ==> g.with_window(rect, inner).at(x, y) == inner.at(
            x - rect.left,
            y - rect.top,
        ),
        !rect.spec_holds(x, y) ==> g.with_window(rect, inner).at(x, y) == g.at(x, y),
{
    lemma_from_fn(
        g.width,
        g.height,
        |x: int, y: int|
            if rect.spec_holds(x, y) {
                inner.at(x - rect.left, y - rect.top)
            } else {
                g.at(x, y)
            },
        x,
        y,
    );
}

/// A store that holds the pixels of one image and nothing else shows them
/// as they stand.
pub proof fn lemma_dense<P>(width: u32, height: u32, elems: Seq<P>)
    requires
        elems.len() == width * height,
    ensures
        (Layout { offset: 0, stride: width as usize, width, height }).fits(elems.len()),
        (Layout { offset: 0, stride: width as usize, width, height }).grid(elems) == (Grid {
            width: width as nat,
            height: height as nat,
            cells: elems,
        }),
{
    let l = Layout { offset: 0, stride: width as usize, width, height };
    let w = width as int;
    let h = height as int;
    assert((h - 1) * w + w == w * h) by (nonlinear_arith);
    let a = l.grid(elems).cells;
    assert forall|i: int| 0 <= i < a.len() implies a[i] == elems[i] by {
        lemma_scanline_coordinate(w, h, i);
    }
    assert(a =~= elems);
}

/// How a window lies in a backing store: the pixel at `(x, y)` is the element
/// at `offset + y * stride + x`.
#[derive(Clone, Copy, Debug)]
pub struct Layout {
    pub offset: usize,
    pub stride: usize,
    pub width: u32,
    pub height: u32,
}

impl Layout {
    /// The place of the pixel `(x, y)` in the backing store.
    pub open spec fn index(self, x: int, y: int) -> int {
        self.offset + y * self.stride + x
    }

    /// `(x, y)` is a coordinate of the window.
    pub open spec fn holds(self, x: int, y: int) -> bool {
        0 <= x < self.width && 0 <= y < self.height
    }

    /// The window lies within a backing store of `len` elements, and its rows
    /// do not overlap.
    pub open spec fn fits(self, len: nat) -> bool {
        &&& self.width <= self.stride
        &&& self.width > 0 && self.height > 0 ==> self.offset + (self.height - 1) * self.stride
            + self.width <= len
    }

    /// The element at place `i` of the backing store is a pixel of the window.
    pub open spec fn covers(self, i: int) -> bool {
        exists|x: int, y: int| self.holds(x, y) && i == #[trigger] self.index(x, y)
    }

    /// The rows of the window follow one another in the backing store
    /// without a gap.
    pub open spec fn contiguous(self) -> bool {
        self.width == 0 || self.height <= 1 || self.stride == self.width
    }

    /// The image that the window shows of the backing store `elems`.
    pub open spec fn grid<P>(self, elems: Seq<P>) -> Grid<P> {
        Grid::from_fn(
            self.width as nat,
            self.height as nat,
            |x: int, y: int| elems[self.index(x, y)],
        )
    }

    /// The window on the part `rect` of this window.
    pub open spec fn sub(self, rect: Rect) -> Layout {
        if rect.width == 0 || rect.height == 0 {
            Layout { offset: self.offset, stride: self.stride, width: rect.width, height: rect.height }
        } else {
            Layout {
                offset: (self.offset + rect.top * self.stride + rect.left) as usize,
                stride: self.stride,
                width: rect.width,
                height: rect.height,
            }
        }
    }

    /// Return `true` if the window lies within a backing store of `len`
    /// elements and its rows do not overlap.
    pub fn fits_len(&self, len: usize) -> (b: bool)
        ensures
            b == self.fits(len as nat),
    {
        if self.width as usize > self.stride {
            return false;
        }
        if self.width == 0 || self.height == 0 {
            return true;
        }
        proof {
            assert((self.height - 1) * self.stride <= u128::MAX) by (nonlinear_arith)
                requires
                    self.height - 1 <= u32::MAX,
                    self.stride <= u64::MAX,
            ;
            assert(0 <= (self.height - 1) * self.stride) by (nonlinear_arith)
                requires
                    0 <= self.height - 1,
                    0 <= self.stride,
            ;
            assert((self.height - 1) * self.stride <= u32::MAX * u64::MAX) by (nonlinear_arith)
                requires
                    0 <= self.height - 1 <= u32::MAX,
                    0 <= self.stride <= u64::MAX,
            ;
        }
        let last_row = ((self.height - 1) as u128) * (self.stride as u128);
        (self.offset as u128) + last_row + (self.width as u128) <= len as u128
    }

    /// The place of the pixel `(x, y)` in a backing store of `len` elements.
    pub fn place(&self, len: usize, x: u32, y: u32) -> (i: usize)
        requires
            self.fits(len as nat),
            x < self.width,
            y < self.height,
        ensures
            i == self.index(x as int, y as int),
            i < len,
    {
        proof {
            self.lemma_index_bound(len as nat, x as int, y as int);
        }
        self.offset + (y as usize) * self.stride + (x as usize)
    }

    /// The window on the part `rect` of this window.
    pub fn window(&self, len: usize, rect: Rect) -> (l: Layout)
        requires
            self.fits(len as nat),
            rect.spec_fits(self.width as int, self.height as int),
        ensures
            l == self.sub(rect),
            l.fits(len as nat),
    {
        proof {
            self.lemma_sub(len as nat, rect);
        }
        if rect.width == 0 || rect.height == 0 {
            Layout { offset: self.offset, stride: self.stride, width: rect.width, height: rect.height }
        } else {
            Layout {
                offset: self.place(len, rect.left, rect.top),
                stride: self.stride,
                width: rect.width,
                height: rect.height,
            }
        }
    }

    /// `after` differs from `before` in pixels of the window at most.
    pub open spec fn framed<P>(self, before: Seq<P>, after: Seq<P>) -> bool {
        &&& after.len() == before.len()
        &&& forall|i: int| 0 <= i < before.len() && !self.covers(i) ==> after[i] == before[i]
    }

    /// The place of a pixel of a window that fits lies within the backing store.
    pub proof fn lemma_index_bound(self, len: nat, x: int, y: int)
        requires
            self.fits(len),
            self.holds(x, y),
        ensures
            self.offset <= self.offset + y * self.stride <= self.index(x, y) < len,
            self.covers(self.index(x, y)),
    {
        lemma_mul_inequality(y, self.height - 1, self.stride as int);
        assert(0 <= y * self.stride) by (nonlinear_arith)
            requires
                0 <= y,
                0 <= self.stride,
        ;
    }

    /// A window that fits shows no more pixels than the backing store holds.
    pub proof fn lemma_area(self, len: nat)
        requires
            self.fits(len),
        ensures
            self.width * self.height <= len,
    {
        let w = self.width as int;
        let h = self.height as int;
        if w > 0 && h > 0 {
            lemma_mul_inequality(w, self.stride as int, h - 1);
            assert(w * h == w * (h - 1) + w) by (nonlinear_arith);
            assert(w * (h - 1) == (h - 1) * w) by (nonlinear_arith);
            assert(self.stride * (h - 1) == (h - 1) * self.stride) by (nonlinear_arith);
        } else {
            assert(w * h == 0) by (nonlinear_arith)
                requires
                    w == 0 || h == 0,
            ;
        }
    }

    /// The image shown holds, at `(x, y)`, the element at the place of `(x, y)`.
    pub proof fn lemma_grid_at<P>(self, elems: Seq<P>, x: int, y: int)
        requires
            self.holds(x, y),
        ensures
            self.grid(elems).wf(),
            self.grid(elems).width == self.width,
            self.grid(elems).height == self.height,
            self.grid(elems).at(x, y) == elems[self.index(x, y)],
    {
        lemma_from_fn(
            self.width as nat,
            self.height as nat,
            |x: int, y: int| elems[self.index(x, y)],
            x,
            y,
        );
    }

    /// The image shown is well formed and has the dimensions of the window.
    pub proof fn lemma_grid_wf<P>(self, elems: Seq<P>)
        ensures
            self.grid(elems).wf(),
            self.grid(elems).width == self.width,
            self.grid(elems).height == self.height,
    {
    }

    /// In a window whose rows do not overlap, distinct coordinates have
    /// distinct places.
    pub proof fn lemma_index_injective(self, x1: int, y1: int, x2: int, y2: int)
        requires
            self.width <= self.stride,
            self.holds(x1, y1),
            self.holds(x2, y2),
            self.index(x1, y1) == self.index(x2, y2),
        ensures
            x1 == x2,
            y1 == y2,
    {
        if y1 < y2 {
            lemma_mul_inequality(y1 + 1, y2, self.stride as int);
            lemma_mul_is_distributive_add_other_way(self.stride as int, y1, 1);
        } else if y2 < y1 {
            lemma_mul_inequality(y2 + 1, y1, self.stride as int);
            lemma_mul_is_distributive_add_other_way(self.stride as int, y2, 1);
        }
    }

    /// A window on a part of a window that fits does fit, and its pixels are
    /// pixels of the outer window, at the same places.
    pub proof fn lemma_sub(self, len: nat, rect: Rect)
        requires
            self.fits(len),
            len <= usize::MAX,
            rect.spec_fits(self.width as int, self.height as int),
        ensures
            self.sub(rect).fits(len),
            rect.width > 0 && rect.height > 0 ==> self.sub(rect).offset == self.offset + rect.top
                * self.stride + rect.left,
            forall|x: int, y: int|
                self.sub(rect).holds(x, y) ==> #[trigger] self.sub(rect).index(x, y) == self.index(
                    rect.left + x,
                    rect.top + y,
                ),
            forall|i: int| self.sub(rect).covers(i) ==> self.covers(i),
    {
        if rect.width > 0 && rect.height > 0 {
            self.lemma_index_bound(len, rect.left as int, rect.top as int);
            self.lemma_index_bound(
                len,
                rect.left + rect.width - 1,
                rect.top + rect.height - 1,
            );
            lemma_mul_is_distributive_add_other_way(
                self.stride as int,
                rect.top as int,
                rect.height - 1,
            );
            assert forall|x: int, y: int| self.sub(rect).holds(x, y) implies #[trigger] self.sub(
                rect,
            ).index(x, y) == self.index(rect.left + x, rect.top + y) by {
                lemma_mul_is_distributive_add_other_way(self.stride as int, rect.top as int, y);
            }
            assert forall|i: int| self.sub(rect).covers(i) implies self.covers(i) by {
                let (x, y) = choose|x: int, y: int|
                    self.sub(rect).holds(x, y) && i == #[trigger] self.sub(rect).index(x, y);
                assert(self.holds(rect.left + x, rect.top + y));
                assert(i == self.index(rect.left + x, rect.top + y));
            }
        } else {
            assert forall|i: int| self.sub(rect).covers(i) implies self.covers(i) by {
                let (x, y) = choose|x: int, y: int|
                    self.sub(rect).holds(x, y) && i == #[trigger] self.sub(rect).index(x, y);
                assert(false);
            }
        }
    }

    /// A window whose rows follow one another without a gap shows a run of
    /// the backing store.
    pub proof fn lemma_contiguous<P>(self, elems: Seq<P>)
        requires
            self.fits(elems.len()),
            self.contiguous(),
            self.width > 0,
            self.height > 0,
        ensures
            self.offset + self.width * self.height <= elems.len(),
            self.grid(elems).cells == elems.subrange(
                self.offset as int,
                self.offset + self.width * self.height,
            ),
    {
        let w = self.width as int;
        let h = self.height as int;
        assert((h - 1) * w + w == w * h) by (nonlinear_arith);
        if self.stride != self.width {
            assert(h == 1);
            assert((h - 1) * self.stride == 0) by (nonlinear_arith)
                requires
                    h == 1,
            ;
            assert(w * h == w) by (nonlinear_arith)
                requires
                    h == 1,
            ;
        }
        let a = self.grid(elems).cells;
        let b = elems.subrange(self.offset as int, self.offset + w * h);
        assert forall|i: int| 0 <= i < a.len() implies a[i] == b[i] by {
            lemma_scanline_coordinate(w, h, i);
            if self.stride != self.width {
                assert(i / w == 0);
                assert((i / w) * self.stride == 0) by (nonlinear_arith)
                    requires
                        i / w == 0,
                ;
            }
        }
        assert(a =~= b);
    }

    /// Writing to the place of a pixel changes that pixel of the image shown
    /// and no other, and stays within the window.
    pub proof fn lemma_update<P>(self, elems: Seq<P>, x: int, y: int, p: P)
        requires
            self.fits(elems.len()),
            self.holds(x, y),
        ensures
            self.grid(elems.update(self.index(x, y), p)) == self.grid(elems).with_cell(x, y, p),
            self.framed(elems, elems.update(self.index(x, y), p)),
            self.fits(elems.update(self.index(x, y), p).len()),
    {
        let after = elems.update(self.index(x, y), p);
        let a = self.grid(after);
        let b = self.grid(elems).with_cell(x, y, p);
        self.lemma_index_bound(elems.len(), x, y);
        lemma_scanline_index(self.width as int, self.height as int, x, y);
        assert forall|u: int, v: int| a.holds(u, v) implies a.at(u, v) == b.at(u, v) by {
            self.lemma_grid_at(after, u, v);
            self.lemma_grid_at(elems, u, v);
            self.lemma_index_bound(elems.len(), u, v);
            lemma_scanline_index(self.width as int, self.height as int, u, v);
            if u == x && v == y {
            } else {
                if self.index(u, v) == self.index(x, y) {
                    self.lemma_index_injective(u, v, x, y);
                }
                if v * self.width + u == y * self.width + x {
                    assert(v == y && u == x);
                }
            }
        }
        lemma_grid_ext(a, b);
    }

    /// Changes that stay within a window, one after the other, stay within it.
    pub proof fn lemma_framed_trans<P>(self, a: Seq<P>, b: Seq<P>, c: Seq<P>)
        requires
            self.framed(a, b),
            self.framed(b, c),
        ensures
            self.framed(a, c),
    {
    }

    /// What is written through a window on the part `rect` of a window shows
    /// in the outer window inside `rect`, and nowhere else.
    pub proof fn lemma_write_back<P>(self, rect: Rect, before: Seq<P>, after: Seq<P>)
        requires
            self.fits(before.len()),
            before.len() <= usize::MAX,
            rect.spec_fits(self.width as int, self.height as int),
            self.sub(rect).framed(before, after),
        ensures
            self.fits(after.len()),
            self.framed(before, after),
            self.grid(after) == self.grid(before).with_window(rect, self.sub(rect).grid(after)),
    {
        let sub = self.sub(rect);
        self.lemma_sub(before.len(), rect);
        let a = self.grid(after);
        let inner = sub.grid(after);
        let b = self.grid(before).with_window(rect, inner);
        assert forall|x: int, y: int| a.holds(x, y) implies a.at(x, y) == b.at(x, y) by {
            self.lemma_grid_at(after, x, y);
            self.lemma_grid_at(before, x, y);
            self.lemma_index_bound(before.len(), x, y);
            lemma_with_window_at(self.grid(before), rect, inner, x, y);
            if rect.spec_holds(x, y) {
                sub.lemma_grid_at(after, x - rect.left, y - rect.top);
                assert(sub.index(x - rect.left, y - rect.top) == self.index(x, y));
            } else {
                if sub.covers(self.index(x, y)) {
                    let (u, v) = choose|u: int, v: int|
                        sub.holds(u, v) && self.index(x, y) == #[trigger] sub.index(u, v);
                    assert(sub.index(u, v) == self.index(rect.left + u, rect.top + v));
                    self.lemma_index_injective(x, y, rect.left + u, rect.top + v);
                    assert(false);
                }
            }
        }
        assert(b.wf()) by {
            if self.width > 0 && self.height > 0 {
                lemma_with_window_at(self.grid(before), rect, inner, 0, 0);
            } else {
                assert(self.width * self.height == 0) by (nonlinear_arith)
                    requires
                        self.width == 0 || self.height == 0,
                ;
            }
        }
        lemma_grid_ext(a, b);
    }

    /// The image that a window on a part shows is that part of the image
    /// that the outer window shows.
    pub proof fn lemma_sub_grid<P>(self, elems: Seq<P>, rect: Rect)
        requires
            self.fits(elems.len()),
            elems.len() <= usize::MAX,
            rect.spec_fits(self.width as int, self.height as int),
        ensures
            self.sub(rect).grid(elems) == self.grid(elems).window(rect),
    {
        let a = self.sub(rect).grid(elems);
        let b = self.grid(elems).window(rect);
        self.lemma_sub(elems.len(), rect);
        self.sub(rect).lemma_grid_wf(elems);
        assert forall|x: int, y: int| a.holds(x, y) implies a.at(x, y) == b.at(x, y) by {
            self.sub(rect).lemma_grid_at(elems, x, y);
            lemma_window_at(self.grid(elems), rect, x, y);
            self.lemma_grid_at(elems, rect.left + x, rect.top + y);
            assert(self.sub(rect).index(x, y) == self.index(rect.left + x, rect.top + y));
        }
        lemma_grid_ext(a, b);
    }
}

} // verus!
