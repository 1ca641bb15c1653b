//! Equality of images: the same dimensions and the same pixels.

use crate::image2d::{Image2D, Image2DRepr};
use crate::storage::Data;
use crate::traits::Pixel;
use vstd::prelude::*;
use vstd::std_specs::cmp::PartialEqSpec;

verus! {

impl<D: Data<P>, E: Data<P>, P: Pixel> PartialEq<Image2DRepr<E, P>> for Image2DRepr<D, P> {
    /// Two images, of whatever kind of store, are equal if they have the
    /// same dimensions and their pixels compare equal, one by one.
    fn eq(&self, other: &Image2DRepr<E, P>) -> (r: bool) {
        let a = self.data.as_slice();
        let b = other.data.as_slice();
        if !self.layout.fits_len(a.len()) || !other.layout.fits_len(b.len()) {
            return false;
        }
        let w = self.layout.width;
        let h = self.layout.height;
        if w != other.layout.width || h != other.layout.height {
            return false;
        }
        let mut y: u32 = 0;
        while y < h
            invariant
                y <= h,
                w == self.layout.width,
                h == self.layout.height,
                w == other.layout.width,
                h == other.layout.height,
                a@ == self.data@,
                b@ == other.data@,
                self.layout.fits(a@.len()),
                other.layout.fits(b@.len()),
                P::obeys_eq_spec() ==> forall|u: int, v: int|
                    0 <= u < w && 0 <= v < y ==> (#[trigger] self@.at(u, v)).eq_spec(
                        &other@.at(u, v),
                    ),
            decreases h - y,
        {
            let mut x: u32 = 0;
            while x < w
                invariant
                    x <= w,
                    y < h,
                    w == self.layout.width,
                    h == self.layout.height,
                    w == other.layout.width,
                    h == other.layout.height,
                    a@ == self.data@,
                    b@ == other.data@,
                    self.layout.fits(a@.len()),
                    other.layout.fits(b@.len()),
                    P::obeys_eq_spec() ==> forall|u: int, v: int|
                        0 <= u < w && (v < y || (v == y && u < x)) && 0 <= v ==> (
                        #[trigger] self@.at(u, v)).eq_spec(&other@.at(u, v)),
                decreases w - x,
            {
                proof {
                    self.layout.lemma_grid_at(a@, x as int, y as int);
                    other.layout.lemma_grid_at(b@, x as int, y as int);
                }
                let p = &a[self.layout.place(a.len(), x, y)];
                let q = &b[other.layout.place(b.len(), x, y)];
                if !(*p == *q) {
                    proof {
                        if P::obeys_eq_spec() {
                            assert(self@.holds(x as int, y as int));
                            assert(!self@.at(x as int, y as int).eq_spec(
                                &other@.at(x as int, y as int),
                            ));
                        }
                    }
                    return false;
                }
                x = x + 1;
            }
            y = y + 1;
        }
        true
    }
}

impl<D: Data<P>, E: Data<P>, P: Pixel> vstd::std_specs::cmp::PartialEqSpecImpl<Image2DRepr<E, P>> for Image2DRepr<D, P> {
    /// The comparison is as exact as that of the pixel type.
    open spec fn obeys_eq_spec() -> bool {
        P::obeys_eq_spec()
    }

    /// Both images lie within their stores, they have the same dimensions,
    /// and their pixels compare equal at every coordinate.
    open spec fn eq_spec(&self, other: &Image2DRepr<E, P>) -> bool {
        &&& self.layout.fits(self.data@.len())
        &&& other.layout.fits(other.data@.len())
        &&& self@.width == other@.width
        &&& self@.height == other@.height
        &&& forall|x: int, y: int|
            self@.holds(x, y) ==> (#[trigger] self@.at(x, y)).eq_spec(&other@.at(x, y))
    }
}

/// Two well-formed images whose pixel type compares by value are equal if and
/// only if they are the same grid.
pub proof fn lemma_eq_is_same_grid<D: Data<P>, E: Data<P>, P: Pixel>(
    a: Image2DRepr<D, P>,
    b: Image2DRepr<E, P>,
)
    requires
        a.wf(),
        b.wf(),
        forall|p: P, q: P| p.eq_spec(&q) <==> p == q,
    ensures
        a.eq_spec(&b) <==> (a@ == b@),
{
    if a.eq_spec(&b) {
        crate::grid::lemma_grid_ext(a@, b@);
    }
}

} // verus!
