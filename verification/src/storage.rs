//! The three kinds of backing store: owned, borrowed and mutably borrowed.

use vstd::prelude::*;

verus! {

/// Read access to a backing store: a sequence of pixels.
pub trait Data<P>: View<V = Seq<P>> {
    /// The store belongs to one image and holds its pixels and nothing else.
    spec fn owns(&self) -> bool;

    /// The elements of the store.
    fn as_slice(&self) -> (s: &[P])
        ensures
            s@ == self@,
    ;
}

/// A store that owns its pixels.
#[derive(Debug)]
pub struct OwnedRepr<P> {
    pub elems: Vec<P>,
}

/// A store borrowed from another image.
#[derive(Debug)]
pub struct ViewRepr<'a, P> {
    pub elems: &'a [P],
}

/// A store borrowed mutably from another image.
///
/// The field is public so that a contract can speak of what the borrow will
/// hold when it ends.
#[derive(Debug)]
pub struct ViewReprMut<'a, P> {
    pub elems: &'a mut [P],
}

impl<P> View for OwnedRepr<P> {
    type V = Seq<P>;

    open spec fn view(&self) -> Seq<P> {
        self.elems@
    }
}

impl<'a, P> View for ViewRepr<'a, P> {
    type V = Seq<P>;

    open spec fn view(&self) -> Seq<P> {
        self.elems@
    }
}

impl<'a, P> View for ViewReprMut<'a, P> {
    type V = Seq<P>;

    open spec fn view(&self) -> Seq<P> {
        self.elems@
    }
}

impl<P> Data<P> for OwnedRepr<P> {
    open spec fn owns(&self) -> bool {
        true
    }

    fn as_slice(&self) -> (s: &[P]) {
        self.elems.as_slice()
    }
}

impl<'a, P> Data<P> for ViewRepr<'a, P> {
    open spec fn owns(&self) -> bool {
        false
    }

    fn as_slice(&self) -> (s: &[P]) {
        self.elems
    }
}

impl<'a, P> Data<P> for ViewReprMut<'a, P> {
    open spec fn owns(&self) -> bool {
        false
    }

    fn as_slice(&self) -> (s: &[P]) {
        &*self.elems
    }
}

} // verus!
