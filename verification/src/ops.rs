//! Arithmetic on images, pixel by pixel: `+`, `-`, `*`, `/` and `%` between
//! two images of any kind of store, which give a new owned image.

use crate::error::ImageError;
use crate::grid::lemma_scanline_index;
use crate::image2d::{Image2D, Image2DRepr, ImageBuffer2D};
use crate::storage::Data;
use crate::traits::Pixel;
use core::ops::{Add, Div, Mul, Rem, Sub};
use vstd::prelude::*;
use vstd::std_specs::ops::{AddSpec, DivSpec, MulSpec, RemSpec, SubSpec};

verus! {

/// The error that an operation on two images of these dimensions returns.
pub open spec fn mismatch(left: (u32, u32), right: (u32, u32)) -> ImageError {
    ImageError::DimensionMismatch {
        left_width: left.0,
        left_height: left.1,
        right_width: right.0,
        right_height: right.1,
    }
}

/// `f` may be called on clones of the pixels of `a` and `b` at every place.
spec fn pairs_accepted<P: Clone, F: Fn(P, P) -> P>(a: Seq<P>, b: Seq<P>, f: F) -> bool {
    forall|i: int, p: P, q: P|
        0 <= i < a.len() && cloned(#[trigger] a[i], p) && cloned(#[trigger] b[i], q)
            ==> #[trigger] call_requires(f, (p, q))
}

/// `c` is a result of `f` on clones of `a` and `b`.
spec fn is_result_of<P: Clone, F: Fn(P, P) -> P>(a: P, b: P, c: P, f: F) -> bool {
    exists|p: P, q: P| cloned(a, p) && cloned(b, q) && #[trigger] call_ensures(f, (p, q), c)
}

/// The image whose pixels are the results of `f` on clones of the pixels of
/// `lhs` and `rhs`, place by place.
fn zip_cells<P: Pixel, I: Image2D<P>, J: Image2D<P>, F: Fn(P, P) -> P>(lhs: &I, rhs: &J, f: F) -> (r:
    ImageBuffer2D<P>)
    requires
        lhs.wf(),
        rhs.wf(),
        lhs@.width == rhs@.width,
        lhs@.height == rhs@.height,
        pairs_accepted(lhs@.cells, rhs@.cells, f),
    ensures
        r.wf(),
        r@.width == lhs@.width,
        r@.height == lhs@.height,
        forall|i: int|
            0 <= i < r@.cells.len() ==> is_result_of(
                lhs@.cells[i],
                rhs@.cells[i],
                #[trigger] r@.cells[i],
                f,
            ),
{
    let w = lhs.width();
    let h = lhs.height();
    proof {
        lhs.lemma_view();
        rhs.lemma_view();
    }
    let mut cells: Vec<P> = Vec::new();
    let mut y: u32 = 0;
    while y < h
        invariant
            y <= h,
            lhs.wf(),
            rhs.wf(),
            w == lhs@.width,
            h == lhs@.height,
            w == rhs@.width,
            h == rhs@.height,
            lhs@.wf(),
            rhs@.wf(),
            pairs_accepted(lhs@.cells, rhs@.cells, f),
            cells@.len() == y * w,
            forall|i: int|
                0 <= i < cells@.len() ==> is_result_of(
                    lhs@.cells[i],
                    rhs@.cells[i],
                    #[trigger] cells@[i],
                    f,
                ),
        decreases h - y,
    {
        let mut x: u32 = 0;
        while x < w
            invariant
                x <= w,
                y < h,
                lhs.wf(),
                rhs.wf(),
                w == lhs@.width,
                h == lhs@.height,
                w == rhs@.width,
                h == rhs@.height,
                lhs@.wf(),
                rhs@.wf(),
                pairs_accepted(lhs@.cells, rhs@.cells, f),
                cells@.len() == y * w + x,
                forall|i: int|
                    0 <= i < cells@.len() ==> is_result_of(
                        lhs@.cells[i],
                        rhs@.cells[i],
                        #[trigger] cells@[i],
                        f,
                    ),
            decreases w - x,
        {
            proof {
                lemma_scanline_index(w as int, h as int, x as int, y as int);
            }
            let p = lhs.get_pixel(x, y).clone();
            let q = rhs.get_pixel(x, y).clone();
            let ghost i = y * w + x;
            assert(cloned(lhs@.cells[i], p) && cloned(rhs@.cells[i], q));
            let c = f(p, q);
            cells.push(c);
            x = x + 1;
        }
        proof {
            assert((y + 1) * w == y * w + w) by (nonlinear_arith);
        }
        y = y + 1;
    }
    proof {
        assert(h * w == w * h) by (nonlinear_arith);
    }
    ImageBuffer2D::from_cells(w, h, cells)
}

/// The sum of clones of `a` and `b` is permitted.
pub open spec fn add_accepted<P: Clone + Add<P, Output = P>>(a: P, b: P) -> bool {
    forall|p: P, q: P| cloned(a, p) && cloned(b, q) ==> #[trigger] p.add_req(q)
}

/// `c` is the sum of clones of `a` and `b`.
pub open spec fn is_add_of<P: Clone + Add<P, Output = P>>(a: P, b: P, c: P) -> bool {
    exists|p: P, q: P|
        cloned(a, p) && cloned(b, q) && #[trigger] p.add_req(q) && (<P as AddSpec>::obeys_add_spec()
            ==> c == p.add_spec(q))
}

/// What `+` returns on two images: the image of the sums of their
/// pixels, or the error that their dimensions differ.
pub open spec fn add_result<D: Data<P>, E: Data<P>, P: Pixel + Add<P, Output = P>>(
    lhs: Image2DRepr<D, P>,
    rhs: Image2DRepr<E, P>,
    r: Result<ImageBuffer2D<P>, ImageError>,
) -> bool {
    if lhs@.width == rhs@.width && lhs@.height == rhs@.height {
        &&& r matches Ok(img)
        &&& img.wf()
        &&& img@.width == lhs@.width
        &&& img@.height == lhs@.height
        &&& forall|i: int|
            0 <= i < img@.cells.len() ==> is_add_of(
                lhs@.cells[i],
                rhs@.cells[i],
                #[trigger] img@.cells[i],
            )
    } else {
        r == Err::<ImageBuffer2D<P>, ImageError>(
            mismatch(
                (lhs.layout.width, lhs.layout.height),
                (rhs.layout.width, rhs.layout.height),
            ),
        )
    }
}

impl<'a, 'b, D: Data<P>, E: Data<P>, P> Add<&'a Image2DRepr<E, P>> for &'b Image2DRepr<D, P> where P: Pixel + Add<P, Output = P> {
    type Output = Result<ImageBuffer2D<P>, ImageError>;

    /// The image of the sums of the pixels of the two images, which have
    /// to agree in their dimensions.
    ///
    /// **Error**: `DimensionMismatch` if they do not.
    fn add(self, rhs: &'a Image2DRepr<E, P>) -> (r: Result<ImageBuffer2D<P>, ImageError>)
        ensures
            add_result(*self, *rhs, r),
    {
        if self.layout.width != rhs.layout.width || self.layout.height != rhs.layout.height {
            return Err(
                ImageError::DimensionMismatch {
                    left_width: self.layout.width,
                    left_height: self.layout.height,
                    right_width: rhs.layout.width,
                    right_height: rhs.layout.height,
                },
            );
        }
        let f = |p: P, q: P| -> (c: P)
            requires
                p.add_req(q),
            ensures
                <P as AddSpec>::obeys_add_spec() ==> c == p.add_spec(q),
                p.add_req(q),
            { p + q };
        let img = zip_cells(self, rhs, f);
        proof {
            assert forall|i: int| 0 <= i < img@.cells.len() implies is_add_of(
                self@.cells[i],
                rhs@.cells[i],
                #[trigger] img@.cells[i],
            ) by {
                let (p, q) = choose|p: P, q: P|
                    cloned(self@.cells[i], p) && cloned(rhs@.cells[i], q) && #[trigger] call_ensures(
                        f,
                        (p, q),
                        img@.cells[i],
                    );
                assert(p.add_req(q));
            }
        }
        Ok(img)
    }
}

impl<'a, 'b, D: Data<P>, E: Data<P>, P> vstd::std_specs::ops::AddSpecImpl<&'a Image2DRepr<E, P>> for &'b Image2DRepr<D, P> where P: Pixel + Add<P, Output = P> {
    /// The result is fixed up to what `clone` and `+` of the pixel type
    /// leave open, so it is stated by the `ensures` of `add`.
    open spec fn obeys_add_spec() -> bool {
        false
    }

    /// Both images are well formed and, where their dimensions agree, the
    /// pixel type permits `+` at every place.
    open spec fn add_req(self, rhs: &'a Image2DRepr<E, P>) -> bool {
        &&& self.wf()
        &&& rhs.wf()
        &&& self@.width == rhs@.width && self@.height == rhs@.height ==> forall|i: int|
            0 <= i < self@.cells.len() ==> add_accepted(#[trigger] self@.cells[i], rhs@.cells[i])
    }

    /// Some result that meets the contract of `add`.
    open spec fn add_spec(self, rhs: &'a Image2DRepr<E, P>) -> Result<ImageBuffer2D<P>, ImageError> {
        choose|r: Result<ImageBuffer2D<P>, ImageError>| add_result(*self, *rhs, r)
    }
}

/// The difference of clones of `a` and `b` is permitted.
pub open spec fn sub_accepted<P: Clone + Sub<P, Output = P>>(a: P, b: P) -> bool {
    forall|p: P, q: P| cloned(a, p) && cloned(b, q) ==> #[trigger] p.sub_req(q)
}

/// `c` is the difference of clones of `a` and `b`.
pub open spec fn is_sub_of<P: Clone + Sub<P, Output = P>>(a: P, b: P, c: P) -> bool {
    exists|p: P, q: P|
        cloned(a, p) && cloned(b, q) && #[trigger] p.sub_req(q) && (<P as SubSpec>::obeys_sub_spec()
            ==> c == p.sub_spec(q))
}

/// What `-` returns on two images: the image of the differences of their
/// pixels, or the error that their dimensions differ.
pub open spec fn sub_result<D: Data<P>, E: Data<P>, P: Pixel + Sub<P, Output = P>>(
    lhs: Image2DRepr<D, P>,
    rhs: Image2DRepr<E, P>,
    r: Result<ImageBuffer2D<P>, ImageError>,
) -> bool {
    if lhs@.width == rhs@.width && lhs@.height == rhs@.height {
        &&& r matches Ok(img)
        &&& img.wf()
        &&& img@.width == lhs@.width
        &&& img@.height == lhs@.height
        &&& forall|i: int|
            0 <= i < img@.cells.len() ==> is_sub_of(
                lhs@.cells[i],
                rhs@.cells[i],
                #[trigger] img@.cells[i],
            )
    } else {
        r == Err::<ImageBuffer2D<P>, ImageError>(
            mismatch(
                (lhs.layout.width, lhs.layout.height),
                (rhs.layout.width, rhs.layout.height),
            ),
        )
    }
}

impl<'a, 'b, D: Data<P>, E: Data<P>, P> Sub<&'a Image2DRepr<E, P>> for &'b Image2DRepr<D, P> where P: Pixel + Sub<P, Output = P> {
    type Output = Result<ImageBuffer2D<P>, ImageError>;

    /// The image of the differences of the pixels of the two images, which have
    /// to agree in their dimensions.
    ///
    /// **Error**: `DimensionMismatch` if they do not.
    fn sub(self, rhs: &'a Image2DRepr<E, P>) -> (r: Result<ImageBuffer2D<P>, ImageError>)
        ensures
            sub_result(*self, *rhs, r),
    {
        if self.layout.width != rhs.layout.width || self.layout.height != rhs.layout.height {
            return Err(
                ImageError::DimensionMismatch {
                    left_width: self.layout.width,
                    left_height: self.layout.height,
                    right_width: rhs.layout.width,
                    right_height: rhs.layout.height,
                },
            );
        }
        let f = |p: P, q: P| -> (c: P)
            requires
                p.sub_req(q),
            ensures
                <P as SubSpec>::obeys_sub_spec() ==> c == p.sub_spec(q),
                p.sub_req(q),
            { p - q };
        let img = zip_cells(self, rhs, f);
        proof {
            assert forall|i: int| 0 <= i < img@.cells.len() implies is_sub_of(
                self@.cells[i],
                rhs@.cells[i],
                #[trigger] img@.cells[i],
            ) by {
                let (p, q) = choose|p: P, q: P|
                    cloned(self@.cells[i], p) && cloned(rhs@.cells[i], q) && #[trigger] call_ensures(
                        f,
                        (p, q),
                        img@.cells[i],
                    );
                assert(p.sub_req(q));
            }
        }
        Ok(img)
    }
}

impl<'a, 'b, D: Data<P>, E: Data<P>, P> vstd::std_specs::ops::SubSpecImpl<&'a Image2DRepr<E, P>> for &'b Image2DRepr<D, P> where P: Pixel + Sub<P, Output = P> {
    /// The result is fixed up to what `clone` and `-` of the pixel type
    /// leave open, so it is stated by the `ensures` of `sub`.
    open spec fn obeys_sub_spec() -> bool {
        false
    }

    /// Both images are well formed and, where their dimensions agree, the
    /// pixel type permits `-` at every place.
    open spec fn sub_req(self, rhs: &'a Image2DRepr<E, P>) -> bool {
        &&& self.wf()
        &&& rhs.wf()
        &&& self@.width == rhs@.width && self@.height == rhs@.height ==> forall|i: int|
            0 <= i < self@.cells.len() ==> sub_accepted(#[trigger] self@.cells[i], rhs@.cells[i])
    }

    /// Some result that meets the contract of `sub`.
    open spec fn sub_spec(self, rhs: &'a Image2DRepr<E, P>) -> Result<ImageBuffer2D<P>, ImageError> {
        choose|r: Result<ImageBuffer2D<P>, ImageError>| sub_result(*self, *rhs, r)
    }
}

/// The product of clones of `a` and `b` is permitted.
pub open spec fn mul_accepted<P: Clone + Mul<P, Output = P>>(a: P, b: P) -> bool {
    forall|p: P, q: P| cloned(a, p) && cloned(b, q) ==> #[trigger] p.mul_req(q)
}

/// `c` is the product of clones of `a` and `b`.
pub open spec fn is_mul_of<P: Clone + Mul<P, Output = P>>(a: P, b: P, c: P) -> bool {
    exists|p: P, q: P|
        cloned(a, p) && cloned(b, q) && #[trigger] p.mul_req(q) && (<P as MulSpec>::obeys_mul_spec()
            ==> c == p.mul_spec(q))
}

/// What `*` returns on two images: the image of the products of their
/// pixels, or the error that their dimensions differ.
pub open spec fn mul_result<D: Data<P>, E: Data<P>, P: Pixel + Mul<P, Output = P>>(
    lhs: Image2DRepr<D, P>,
    rhs: Image2DRepr<E, P>,
    r: Result<ImageBuffer2D<P>, ImageError>,
) -> bool {
    if lhs@.width == rhs@.width && lhs@.height == rhs@.height {
        &&& r matches Ok(img)
        &&& img.wf()
        &&& img@.width == lhs@.width
        &&& img@.height == lhs@.height
        &&& forall|i: int|
            0 <= i < img@.cells.len() ==> is_mul_of(
                lhs@.cells[i],
                rhs@.cells[i],
                #[trigger] img@.cells[i],
            )
    } else {
        r == Err::<ImageBuffer2D<P>, ImageError>(
            mismatch(
                (lhs.layout.width, lhs.layout.height),
                (rhs.layout.width, rhs.layout.height),
            ),
        )
    }
}

impl<'a, 'b, D: Data<P>, E: Data<P>, P> Mul<&'a Image2DRepr<E, P>> for &'b Image2DRepr<D, P> where P: Pixel + Mul<P, Output = P> {
    type Output = Result<ImageBuffer2D<P>, ImageError>;

    /// The image of the products of the pixels of the two images, which have
    /// to agree in their dimensions.
    ///
    /// **Error**: `DimensionMismatch` if they do not.
    fn mul(self, rhs: &'a Image2DRepr<E, P>) -> (r: Result<ImageBuffer2D<P>, ImageError>)
        ensures
            mul_result(*self, *rhs, r),
    {
        if self.layout.width != rhs.layout.width || self.layout.height != rhs.layout.height {
            return Err(
                ImageError::DimensionMismatch {
                    left_width: self.layout.width,
                    left_height: self.layout.height,
                    right_width: rhs.layout.width,
                    right_height: rhs.layout.height,
                },
            );
        }
        let f = |p: P, q: P| -> (c: P)
            requires
                p.mul_req(q),
            ensures
                <P as MulSpec>::obeys_mul_spec() ==> c == p.mul_spec(q),
                p.mul_req(q),
            { p * q };
        let img = zip_cells(self, rhs, f);
        proof {
            assert forall|i: int| 0 <= i < img@.cells.len() implies is_mul_of(
                self@.cells[i],
                rhs@.cells[i],
                #[trigger] img@.cells[i],
            ) by {
                let (p, q) = choose|p: P, q: P|
                    cloned(self@.cells[i], p) && cloned(rhs@.cells[i], q) && #[trigger] call_ensures(
                        f,
                        (p, q),
                        img@.cells[i],
                    );
                assert(p.mul_req(q));
            }
        }
        Ok(img)
    }
}

impl<'a, 'b, D: Data<P>, E: Data<P>, P> vstd::std_specs::ops::MulSpecImpl<&'a Image2DRepr<E, P>> for &'b Image2DRepr<D, P> where P: Pixel + Mul<P, Output = P> {
    /// The result is fixed up to what `clone` and `*` of the pixel type
    /// leave open, so it is stated by the `ensures` of `mul`.
    open spec fn obeys_mul_spec() -> bool {
        false
    }

    /// Both images are well formed and, where their dimensions agree, the
    /// pixel type permits `*` at every place.
    open spec fn mul_req(self, rhs: &'a Image2DRepr<E, P>) -> bool {
        &&& self.wf()
        &&& rhs.wf()
        &&& self@.width == rhs@.width && self@.height == rhs@.height ==> forall|i: int|
            0 <= i < self@.cells.len() ==> mul_accepted(#[trigger] self@.cells[i], rhs@.cells[i])
    }

    /// Some result that meets the contract of `mul`.
    open spec fn mul_spec(self, rhs: &'a Image2DRepr<E, P>) -> Result<ImageBuffer2D<P>, ImageError> {
        choose|r: Result<ImageBuffer2D<P>, ImageError>| mul_result(*self, *rhs, r)
    }
}

/// The quotient of clones of `a` and `b` is permitted.
pub open spec fn div_accepted<P: Clone + Div<P, Output = P>>(a: P, b: P) -> bool {
    forall|p: P, q: P| cloned(a, p) && cloned(b, q) ==> #[trigger] p.div_req(q)
}

/// `c` is the quotient of clones of `a` and `b`.
pub open spec fn is_div_of<P: Clone + Div<P, Output = P>>(a: P, b: P, c: P) -> bool {
    exists|p: P, q: P|
        cloned(a, p) && cloned(b, q) && #[trigger] p.div_req(q) && (<P as DivSpec>::obeys_div_spec()
            ==> c == p.div_spec(q))
}

/// What `/` returns on two images: the image of the quotients of their
/// pixels, or the error that their dimensions differ.
pub open spec fn div_result<D: Data<P>, E: Data<P>, P: Pixel + Div<P, Output = P>>(
    lhs: Image2DRepr<D, P>,
    rhs: Image2DRepr<E, P>,
    r: Result<ImageBuffer2D<P>, ImageError>,
) -> bool {
    if lhs@.width == rhs@.width && lhs@.height == rhs@.height {
        &&& r matches Ok(img)
        &&& img.wf()
        &&& img@.width == lhs@.width
        &&& img@.height == lhs@.height
        &&& forall|i: int|
            0 <= i < img@.cells.len() ==> is_div_of(
                lhs@.cells[i],
                rhs@.cells[i],
                #[trigger] img@.cells[i],
            )
    } else {
        r == Err::<ImageBuffer2D<P>, ImageError>(
            mismatch(
                (lhs.layout.width, lhs.layout.height),
                (rhs.layout.width, rhs.layout.height),
            ),
        )
    }
}

impl<'a, 'b, D: Data<P>, E: Data<P>, P> Div<&'a Image2DRepr<E, P>> for &'b Image2DRepr<D, P> where P: Pixel + Div<P, Output = P> {
    type Output = Result<ImageBuffer2D<P>, ImageError>;

    /// The image of the quotients of the pixels of the two images, which have
    /// to agree in their dimensions.
    ///
    /// **Error**: `DimensionMismatch` if they do not.
    fn div(self, rhs: &'a Image2DRepr<E, P>) -> (r: Result<ImageBuffer2D<P>, ImageError>)
        ensures
            div_result(*self, *rhs, r),
    {
        if self.layout.width != rhs.layout.width || self.layout.height != rhs.layout.height {
            return Err(
                ImageError::DimensionMismatch {
                    left_width: self.layout.width,
                    left_height: self.layout.height,
                    right_width: rhs.layout.width,
                    right_height: rhs.layout.height,
                },
            );
        }
        let f = |p: P, q: P| -> (c: P)
            requires
                p.div_req(q),
            ensures
                <P as DivSpec>::obeys_div_spec() ==> c == p.div_spec(q),
                p.div_req(q),
            { p / q };
        let img = zip_cells(self, rhs, f);
        proof {
            assert forall|i: int| 0 <= i < img@.cells.len() implies is_div_of(
                self@.cells[i],
                rhs@.cells[i],
                #[trigger] img@.cells[i],
            ) by {
                let (p, q) = choose|p: P, q: P|
                    cloned(self@.cells[i], p) && cloned(rhs@.cells[i], q) && #[trigger] call_ensures(
                        f,
                        (p, q),
                        img@.cells[i],
                    );
                assert(p.div_req(q));
            }
        }
        Ok(img)
    }
}

impl<'a, 'b, D: Data<P>, E: Data<P>, P> vstd::std_specs::ops::DivSpecImpl<&'a Image2DRepr<E, P>> for &'b Image2DRepr<D, P> where P: Pixel + Div<P, Output = P> {
    /// The result is fixed up to what `clone` and `/` of the pixel type
    /// leave open, so it is stated by the `ensures` of `div`.
    open spec fn obeys_div_spec() -> bool {
        false
    }

    /// Both images are well formed and, where their dimensions agree, the
    /// pixel type permits `/` at every place.
    open spec fn div_req(self, rhs: &'a Image2DRepr<E, P>) -> bool {
        &&& self.wf()
        &&& rhs.wf()
        &&& self@.width == rhs@.width && self@.height == rhs@.height ==> forall|i: int|
            0 <= i < self@.cells.len() ==> div_accepted(#[trigger] self@.cells[i], rhs@.cells[i])
    }

    /// Some result that meets the contract of `div`.
    open spec fn div_spec(self, rhs: &'a Image2DRepr<E, P>) -> Result<ImageBuffer2D<P>, ImageError> {
        choose|r: Result<ImageBuffer2D<P>, ImageError>| div_result(*self, *rhs, r)
    }
}

/// The remainder of clones of `a` and `b` is permitted.
pub open spec fn rem_accepted<P: Clone + Rem<P, Output = P>>(a: P, b: P) -> bool {
    forall|p: P, q: P| cloned(a, p) && cloned(b, q) ==> #[trigger] p.rem_req(q)
}

/// `c` is the remainder of clones of `a` and `b`.
pub open spec fn is_rem_of<P: Clone + Rem<P, Output = P>>(a: P, b: P, c: P) -> bool {
    exists|p: P, q: P|
        cloned(a, p) && cloned(b, q) && #[trigger] p.rem_req(q) && (<P as RemSpec>::obeys_rem_spec()
            ==> c == p.rem_spec(q))
}

/// What `%` returns on two images: the image of the remainders of their
/// pixels, or the error that their dimensions differ.
pub open spec fn rem_result<D: Data<P>, E: Data<P>, P: Pixel + Rem<P, Output = P>>(
    lhs: Image2DRepr<D, P>,
    rhs: Image2DRepr<E, P>,
    r: Result<ImageBuffer2D<P>, ImageError>,
) -> bool {
    if lhs@.width == rhs@.width && lhs@.height == rhs@.height {
        &&& r matches Ok(img)
        &&& img.wf()
        &&& img@.width == lhs@.width
        &&& img@.height == lhs@.height
        &&& forall|i: int|
            0 <= i < img@.cells.len() ==> is_rem_of(
                lhs@.cells[i],
                rhs@.cells[i],
                #[trigger] img@.cells[i],
            )
    } else {
        r == Err::<ImageBuffer2D<P>, ImageError>(
            mismatch(
                (lhs.layout.width, lhs.layout.height),
                (rhs.layout.width, rhs.layout.height),
            ),
        )
    }
}

impl<'a, 'b, D: Data<P>, E: Data<P>, P> Rem<&'a Image2DRepr<E, P>> for &'b Image2DRepr<D, P> where P: Pixel + Rem<P, Output = P> {
    type Output = Result<ImageBuffer2D<P>, ImageError>;

    /// The image of the remainders of the pixels of the two images, which have
    /// to agree in their dimensions.
    ///
    /// **Error**: `DimensionMismatch` if they do not.
    fn rem(self, rhs: &'a Image2DRepr<E, P>) -> (r: Result<ImageBuffer2D<P>, ImageError>)
        ensures
            rem_result(*self, *rhs, r),
    {
        if self.layout.width != rhs.layout.width || self.layout.height != rhs.layout.height {
            return Err(
                ImageError::DimensionMismatch {
                    left_width: self.layout.width,
                    left_height: self.layout.height,
                    right_width: rhs.layout.width,
                    right_height: rhs.layout.height,
                },
            );
        }
        let f = |p: P, q: P| -> (c: P)
            requires
                p.rem_req(q),
            ensures
                <P as RemSpec>::obeys_rem_spec() ==> c == p.rem_spec(q),
                p.rem_req(q),
            { p % q };
        let img = zip_cells(self, rhs, f);
        proof {
            assert forall|i: int| 0 <= i < img@.cells.len() implies is_rem_of(
                self@.cells[i],
                rhs@.cells[i],
                #[trigger] img@.cells[i],
            ) by {
                let (p, q) = choose|p: P, q: P|
                    cloned(self@.cells[i], p) && cloned(rhs@.cells[i], q) && #[trigger] call_ensures(
                        f,
                        (p, q),
                        img@.cells[i],
                    );
                assert(p.rem_req(q));
            }
        }
        Ok(img)
    }
}

impl<'a, 'b, D: Data<P>, E: Data<P>, P> vstd::std_specs::ops::RemSpecImpl<&'a Image2DRepr<E, P>> for &'b Image2DRepr<D, P> where P: Pixel + Rem<P, Output = P> {
    /// The result is fixed up to what `clone` and `%` of the pixel type
    /// leave open, so it is stated by the `ensures` of `rem`.
    open spec fn obeys_rem_spec() -> bool {
        false
    }

    /// Both images are well formed and, where their dimensions agree, the
    /// pixel type permits `%` at every place.
    open spec fn rem_req(self, rhs: &'a Image2DRepr<E, P>) -> bool {
        &&& self.wf()
        &&& rhs.wf()
        &&& self@.width == rhs@.width && self@.height == rhs@.height ==> forall|i: int|
            0 <= i < self@.cells.len() ==> rem_accepted(#[trigger] self@.cells[i], rhs@.cells[i])
    }

    /// Some result that meets the contract of `rem`.
    open spec fn rem_spec(self, rhs: &'a Image2DRepr<E, P>) -> Result<ImageBuffer2D<P>, ImageError> {
        choose|r: Result<ImageBuffer2D<P>, ImageError>| rem_result(*self, *rhs, r)
    }
}

} // verus!
