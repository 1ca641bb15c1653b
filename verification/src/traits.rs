//! The contracts that pixel types, channel types and regions have to meet.

use core::fmt::{Debug, Display};
use core::ops::{Add, Div, Mul, Rem, Sub};
use vstd::prelude::*;
use vstd::std_specs::ops::AddSpec;

verus! {

/// A numeric channel type: a copyable value with the usual arithmetic
/// operators and an additive identity.
pub trait Primitive: Copy + Clone + Debug + Display + PartialOrd + Add<Output = Self> + Sub<
    Output = Self,
> + Mul<Output = Self> + Div<Output = Self> + Rem<Output = Self> {
    /// The additive identity of the type.
    spec fn spec_zero() -> Self;

    /// Returns the additive identity.
    fn zero() -> (z: Self)
        ensures
            z == Self::spec_zero(),
    ;
}

impl Primitive for u8 {
    open spec fn spec_zero() -> u8 {
        0
    }

    fn zero() -> (z: u8) {
        0
    }
}

impl Primitive for u16 {
    open spec fn spec_zero() -> u16 {
        0
    }

    fn zero() -> (z: u16) {
        0
    }
}

impl Primitive for u32 {
    open spec fn spec_zero() -> u32 {
        0
    }

    fn zero() -> (z: u32) {
        0
    }
}

impl Primitive for u64 {
    open spec fn spec_zero() -> u64 {
        0
    }

    fn zero() -> (z: u64) {
        0
    }
}

impl Primitive for usize {
    open spec fn spec_zero() -> usize {
        0
    }

    fn zero() -> (z: usize) {
        0
    }
}

impl Primitive for i8 {
    open spec fn spec_zero() -> i8 {
        0
    }

    fn zero() -> (z: i8) {
        0
    }
}

impl Primitive for i16 {
    open spec fn spec_zero() -> i16 {
        0
    }

    fn zero() -> (z: i16) {
        0
    }
}

impl Primitive for i32 {
    open spec fn spec_zero() -> i32 {
        0
    }

    fn zero() -> (z: i32) {
        0
    }
}

impl Primitive for i64 {
    open spec fn spec_zero() -> i64 {
        0
    }

    fn zero() -> (z: i64) {
        0
    }
}

impl Primitive for isize {
    open spec fn spec_zero() -> isize {
        0
    }

    fn zero() -> (z: isize) {
        0
    }
}

/// The sum of the channels `s`, added from the left onto the additive identity.
pub open spec fn channel_sum<T: Primitive>(s: Seq<T>) -> T {
    s.fold_left(T::spec_zero(), |acc: T, c: T| acc.add_spec(c))
}

/// Every addition that `channel_sum(s)` performs is one the channel type permits.
pub open spec fn channel_sum_defined<T: Primitive>(s: Seq<T>) -> bool {
    forall|k: int| 0 <= k < s.len() ==> (#[trigger] channel_sum(s.take(k))).add_req(s[k])
}

/// The element type of an image: a fixed number of channels of one type.
pub trait Pixel: Clone + PartialEq {
    /// The type of one channel.
    type Subpixel: Clone;

    /// Number of channels contained in the pixel type.
    const N_CHANNELS: u32;

    /// The channels of the pixel, in order.
    spec fn spec_channels(&self) -> Seq<Self::Subpixel>;

    /// Return a slice containing the different channels of the pixel.
    fn channels(&self) -> (s: &[Self::Subpixel])
        ensures
            s@ == self.spec_channels(),
            s@.len() == Self::N_CHANNELS,
    ;

    /// Return a mutable slice containing the different channels of the pixel.
    /// What is written through the slice is what the pixel holds afterwards.
    fn channels_mut(&mut self) -> (s: &mut [Self::Subpixel])
        ensures
            s@ == old(self).spec_channels(),
            s@.len() == Self::N_CHANNELS,
            final(self).spec_channels() == final(s)@,
    ;

    /// Create a new pixel from the first `N_CHANNELS` values of a slice.
    ///
    /// The length of the slice is not checked at run time: a caller has to
    /// supply at least `N_CHANNELS` values.
    fn from_slice(s: &[Self::Subpixel]) -> (p: Self)
        requires
            s@.len() >= Self::N_CHANNELS,
        ensures
            p.spec_channels().len() == Self::N_CHANNELS,
            forall|i: int|
                0 <= i < Self::N_CHANNELS ==> cloned(s@[i], #[trigger] p.spec_channels()[i]),
    ;

    /// Set the value of the pixel from the first `N_CHANNELS` values of a slice.
    ///
    /// The length of the slice is not checked at run time: a caller has to
    /// supply at least `N_CHANNELS` values.
    fn set_to_slice(&mut self, s: &[Self::Subpixel])
        requires
            s@.len() >= Self::N_CHANNELS,
        ensures
            final(self).spec_channels().len() == Self::N_CHANNELS,
            forall|i: int|
                0 <= i < Self::N_CHANNELS ==> cloned(
                    s@[i],
                    #[trigger] final(self).spec_channels()[i],
                ),
    ;

    /// Apply `f` to every channel and collect the results in a new pixel.
    fn map<F>(&self, f: F) -> (p: Self) where F: Fn(Self::Subpixel) -> Self::Subpixel
        requires
            forall|i: int|
                0 <= i < self.spec_channels().len() ==> call_requires(
                    f,
                    (#[trigger] self.spec_channels()[i],),
                ),
        ensures
            p.spec_channels().len() == self.spec_channels().len(),
            forall|i: int|
                0 <= i < self.spec_channels().len() ==> call_ensures(
                    f,
                    (self.spec_channels()[i],),
                    #[trigger] p.spec_channels()[i],
                ),
    ;

    /// Add up the channels, starting from the additive identity.
    fn sum(&self) -> (r: Self::Subpixel) where Self::Subpixel: Primitive
        requires
            <Self::Subpixel as AddSpec>::obeys_add_spec(),
            channel_sum_defined(self.spec_channels()),
        ensures
            r == channel_sum(self.spec_channels()),
    {
        let s = self.channels();
        let n = s.len();
        let mut acc = <Self::Subpixel as Primitive>::zero();
        let mut i: usize = 0;
        while i < n
            invariant
                i <= n,
                n == s@.len(),
                s@ == self.spec_channels(),
                <Self::Subpixel as AddSpec>::obeys_add_spec(),
                channel_sum_defined(s@),
                acc == channel_sum(s@.take(i as int)),
            decreases n - i,
        {
            proof {
                assert(s@.take(i as int + 1).drop_last() =~= s@.take(i as int));
            }
            acc = acc + s[i];
            i = i + 1;
        }
        proof {
            assert(s@.take(n as int) =~= s@);
        }
        acc
    }
}

/// Trait for types representing image regions.
pub trait Region {
    /// The points of the region.
    spec fn spec_contains(&self, x: int, y: int) -> bool;

    /// Return `true` if the region contains the specified point, `false` otherwise.
    fn contains(&self, x: u32, y: u32) -> (b: bool)
        ensures
            b == self.spec_contains(x as int, y as int),
    ;
}

/// Marker trait for pixel types that overload arithmetic operations.
pub trait PixelOps: Pixel + Add<Output = Self> + Sub<Output = Self> + Mul<Output = Self> + Div<
    Output = Self,
> + Rem<Output = Self> {

}

/// Marker trait for pixel types that overload arithmetic operations with a
/// borrowed right-hand side as well.
pub trait PixelOpsRef: PixelOps + for <'r>Add<&'r Self, Output = Self> + for <'r>Sub<
    &'r Self,
    Output = Self,
> + for <'r>Mul<&'r Self, Output = Self> + for <'r>Div<&'r Self, Output = Self> + for <'r>Rem<
    &'r Self,
    Output = Self,
> {

}

/// Enables casts between pixel types.
///
/// Nothing in the signature says that both pixel types have the same number
/// of channels; an implementation casts between related pixel types that
/// differ in their channel type only.
pub trait PixelCast<P, S, O>: Pixel<Subpixel = S> where P: Pixel<Subpixel = O>, O: Clone, S: Clone {
    /// Cast `other` into `Self` and assign the value to `self`.
    fn cast_from(&mut self, other: &P);

    /// Cast `self` into `P` and assign the value to `other`.
    fn cast_to(&self, other: &mut P);
}

} // verus!
