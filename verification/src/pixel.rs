//! Pixel types with one to four channels of one numeric type.

use crate::traits::{Pixel, PixelOps};
use core::ops::{Add, Div, Mul, Rem, Sub};
use vstd::prelude::*;
use vstd::std_specs::cmp::PartialEqSpec;
use vstd::std_specs::ops::{AddSpec, DivSpec, MulSpec, RemSpec, SubSpec};

verus! {

/// The channels that a pixel type holds.
#[derive(Debug, Clone, Copy, PartialEq, Eq, Structural)]
pub enum PixelType {
    /// One channel: a grey level.
    Luma,
    /// Two channels: a grey level and an alpha value.
    LumaA,
    /// Three channels: red, green and blue.
    Rgb,
    /// Four channels: red, green, blue and an alpha value.
    RgbA,
}

/// A grey level.
#[derive(Debug)]
pub struct Luma<T> {
    pub data: [T; 1],
}

impl<T: Copy> Clone for Luma<T> {
    fn clone(&self) -> (r: Self)
        ensures
            r == *self,
    {
        Luma { data: self.data }
    }
}

impl<T: Copy> Copy for Luma<T> {

}

impl<T: Copy + PartialEq> PartialEq for Luma<T> {
    fn eq(&self, other: &Self) -> (r: bool) {
        self.data[0] == other.data[0]
    }
}

impl<T: Copy + PartialEq> vstd::std_specs::cmp::PartialEqSpecImpl for Luma<T> {
    open spec fn obeys_eq_spec() -> bool {
        T::obeys_eq_spec()
    }

    open spec fn eq_spec(&self, other: &Self) -> bool {
        self.data[0].eq_spec(&other.data[0])
    }
}

impl<T: Copy> Luma<T> {
    /// Create a pixel from its channel values.
    pub fn new(data: [T; 1]) -> (p: Self)
        ensures
            p.data == data,
    {
        Luma { data }
    }
}

impl<T: Copy + Default> Default for Luma<T> {
    /// The pixel whose channels are the default value of the channel type.
    fn default() -> (p: Self)
        ensures
            forall|i: int| 0 <= i < 1 ==> call_ensures(T::default, (), #[trigger] p.data@[i]),
    {
        let c = T::default();
        Luma { data: [c] }
    }
}

impl<T: Copy + PartialEq> Pixel for Luma<T> {
    type Subpixel = T;

    const N_CHANNELS: u32 = 1;

    open spec fn spec_channels(&self) -> Seq<T> {
        self.data@
    }

    fn channels(&self) -> (s: &[T]) {
        assert(self.data@.len() == 1);
        assert(Self::N_CHANNELS == 1);
        self.data.as_slice()
    }

    fn channels_mut(&mut self) -> (s: &mut [T]) {
        assert(self.data@.len() == 1);
        &mut self.data
    }

    fn from_slice(s: &[T]) -> (p: Self) {
        Luma { data: [s[0]] }
    }

    fn set_to_slice(&mut self, s: &[T]) {
        self.data = [s[0]];
    }

    fn map<F>(&self, f: F) -> (p: Self) where F: Fn(T) -> T {
        assert(self.data@.len() == 1);
        assert(self.spec_channels()[0] == self.data[0]);
        let c0 = f(self.data[0]);
        Luma { data: [c0] }
    }
}

impl<T> PixelOps for Luma<T> where
    T: Copy + PartialEq + Add<Output = T> + Sub<Output = T> + Mul<Output = T> + Div<Output = T> + Rem<
        Output = T,
    >,
 {

}

impl<T: Copy + Add<Output = T>> Add for Luma<T> {
    type Output = Luma<T>;

    /// The sum of the two pixels, channel by channel.
    fn add(self, rhs: Luma<T>) -> (r: Luma<T>) {
        Luma { data: [self.data[0] + rhs.data[0]] }
    }
}

impl<T: Copy + Add<Output = T>> vstd::std_specs::ops::AddSpecImpl for Luma<T> {
    open spec fn obeys_add_spec() -> bool {
        <T as AddSpec>::obeys_add_spec()
    }

    open spec fn add_req(self, rhs: Luma<T>) -> bool {
        self.data[0].add_req(rhs.data[0])
    }

    open spec fn add_spec(self, rhs: Luma<T>) -> Luma<T> {
        Luma { data: [self.data[0].add_spec(rhs.data[0])] }
    }
}

impl<T: Copy + Sub<Output = T>> Sub for Luma<T> {
    type Output = Luma<T>;

    /// The difference of the two pixels, channel by channel.
    fn sub(self, rhs: Luma<T>) -> (r: Luma<T>) {
        Luma { data: [self.data[0] - rhs.data[0]] }
    }
}

impl<T: Copy + Sub<Output = T>> vstd::std_specs::ops::SubSpecImpl for Luma<T> {
    open spec fn obeys_sub_spec() -> bool {
        <T as SubSpec>::obeys_sub_spec()
    }

    open spec fn sub_req(self, rhs: Luma<T>) -> bool {
        self.data[0].sub_req(rhs.data[0])
    }

    open spec fn sub_spec(self, rhs: Luma<T>) -> Luma<T> {
        Luma { data: [self.data[0].sub_spec(rhs.data[0])] }
    }
}

impl<T: Copy + Mul<Output = T>> Mul for Luma<T> {
    type Output = Luma<T>;

    /// The product of the two pixels, channel by channel.
    fn mul(self, rhs: Luma<T>) -> (r: Luma<T>) {
        Luma { data: [self.data[0] * rhs.data[0]] }
    }
}

impl<T: Copy + Mul<Output = T>> vstd::std_specs::ops::MulSpecImpl for Luma<T> {
    open spec fn obeys_mul_spec() -> bool {
        <T as MulSpec>::obeys_mul_spec()
    }

    open spec fn mul_req(self, rhs: Luma<T>) -> bool {
        self.data[0].mul_req(rhs.data[0])
    }

    open spec fn mul_spec(self, rhs: Luma<T>) -> Luma<T> {
        Luma { data: [self.data[0].mul_spec(rhs.data[0])] }
    }
}

impl<T: Copy + Div<Output = T>> Div for Luma<T> {
    type Output = Luma<T>;

    /// The quotient of the two pixels, channel by channel.
    fn div(self, rhs: Luma<T>) -> (r: Luma<T>) {
        Luma { data: [self.data[0] / rhs.data[0]] }
    }
}

impl<T: Copy + Div<Output = T>> vstd::std_specs::ops::DivSpecImpl for Luma<T> {
    open spec fn obeys_div_spec() -> bool {
        <T as DivSpec>::obeys_div_spec()
    }

    open spec fn div_req(self, rhs: Luma<T>) -> bool {
        self.data[0].div_req(rhs.data[0])
    }

    open spec fn div_spec(self, rhs: Luma<T>) -> Luma<T> {
        Luma { data: [self.data[0].div_spec(rhs.data[0])] }
    }
}

impl<T: Copy + Rem<Output = T>> Rem for Luma<T> {
    type Output = Luma<T>;

    /// The remainder of the two pixels, channel by channel.
    fn rem(self, rhs: Luma<T>) -> (r: Luma<T>) {
        Luma { data: [self.data[0] % rhs.data[0]] }
    }
}

impl<T: Copy + Rem<Output = T>> vstd::std_specs::ops::RemSpecImpl for Luma<T> {
    open spec fn obeys_rem_spec() -> bool {
        <T as RemSpec>::obeys_rem_spec()
    }

    open spec fn rem_req(self, rhs: Luma<T>) -> bool {
        self.data[0].rem_req(rhs.data[0])
    }

    open spec fn rem_spec(self, rhs: Luma<T>) -> Luma<T> {
        Luma { data: [self.data[0].rem_spec(rhs.data[0])] }
    }
}

/// A grey level and an alpha value.
#[derive(Debug)]
pub struct LumaA<T> {
    pub data: [T; 2],
}

impl<T: Copy> Clone for LumaA<T> {
    fn clone(&self) -> (r: Self)
        ensures
            r == *self,
    {
        LumaA { data: self.data }
    }
}

impl<T: Copy> Copy for LumaA<T> {

}

impl<T: Copy + PartialEq> PartialEq for LumaA<T> {
    fn eq(&self, other: &Self) -> (r: bool) {
        self.data[0] == other.data[0] && self.data[1] == other.data[1]
    }
}

impl<T: Copy + PartialEq> vstd::std_specs::cmp::PartialEqSpecImpl for LumaA<T> {
    open spec fn obeys_eq_spec() -> bool {
        T::obeys_eq_spec()
    }

    open spec fn eq_spec(&self, other: &Self) -> bool {
        self.data[0].eq_spec(&other.data[0]) && self.data[1].eq_spec(&other.data[1])
    }
}

impl<T: Copy> LumaA<T> {
    /// Create a pixel from its channel values.
    pub fn new(data: [T; 2]) -> (p: Self)
        ensures
            p.data == data,
    {
        LumaA { data }
    }
}

impl<T: Copy + Default> Default for LumaA<T> {
    /// The pixel whose channels are the default value of the channel type.
    fn default() -> (p: Self)
        ensures
            forall|i: int| 0 <= i < 2 ==> call_ensures(T::default, (), #[trigger] p.data@[i]),
    {
        let c = T::default();
        LumaA { data: [c, c] }
    }
}

impl<T: Copy + PartialEq> Pixel for LumaA<T> {
    type Subpixel = T;

    const N_CHANNELS: u32 = 2;

    open spec fn spec_channels(&self) -> Seq<T> {
        self.data@
    }

    fn channels(&self) -> (s: &[T]) {
        assert(self.data@.len() == 2);
        assert(Self::N_CHANNELS == 2);
        self.data.as_slice()
    }

    fn channels_mut(&mut self) -> (s: &mut [T]) {
        assert(self.data@.len() == 2);
        &mut self.data
    }

    fn from_slice(s: &[T]) -> (p: Self) {
        LumaA { data: [s[0], s[1]] }
    }

    fn set_to_slice(&mut self, s: &[T]) {
        self.data = [s[0], s[1]];
    }

    fn map<F>(&self, f: F) -> (p: Self) where F: Fn(T) -> T {
        assert(self.data@.len() == 2);
        assert(self.spec_channels()[0] == self.data[0]);
        assert(self.spec_channels()[1] == self.data[1]);
        let c0 = f(self.data[0]);
        let c1 = f(self.data[1]);
        LumaA { data: [c0, c1] }
    }
}

impl<T> PixelOps for LumaA<T> where
    T: Copy + PartialEq + Add<Output = T> + Sub<Output = T> + Mul<Output = T> + Div<Output = T> + Rem<
        Output = T,
    >,
 {

}

impl<T: Copy + Add<Output = T>> Add for LumaA<T> {
    type Output = LumaA<T>;

    /// The sum of the two pixels, channel by channel.
    fn add(self, rhs: LumaA<T>) -> (r: LumaA<T>) {
        LumaA { data: [self.data[0] + rhs.data[0], self.data[1] + rhs.data[1]] }
    }
}

impl<T: Copy + Add<Output = T>> vstd::std_specs::ops::AddSpecImpl for LumaA<T> {
    open spec fn obeys_add_spec() -> bool {
        <T as AddSpec>::obeys_add_spec()
    }

    open spec fn add_req(self, rhs: LumaA<T>) -> bool {
        self.data[0].add_req(rhs.data[0]) && self.data[1].add_req(rhs.data[1])
    }

    open spec fn add_spec(self, rhs: LumaA<T>) -> LumaA<T> {
        LumaA { data: [self.data[0].add_spec(rhs.data[0]), self.data[1].add_spec(rhs.data[1])] }
    }
}

impl<T: Copy + Sub<Output = T>> Sub for LumaA<T> {
    type Output = LumaA<T>;

    /// The difference of the two pixels, channel by channel.
    fn sub(self, rhs: LumaA<T>) -> (r: LumaA<T>) {
        LumaA { data: [self.data[0] - rhs.data[0], self.data[1] - rhs.data[1]] }
    }
}

impl<T: Copy + Sub<Output = T>> vstd::std_specs::ops::SubSpecImpl for LumaA<T> {
    open spec fn obeys_sub_spec() -> bool {
        <T as SubSpec>::obeys_sub_spec()
    }

    open spec fn sub_req(self, rhs: LumaA<T>) -> bool {
        self.data[0].sub_req(rhs.data[0]) && self.data[1].sub_req(rhs.data[1])
    }

    open spec fn sub_spec(self, rhs: LumaA<T>) -> LumaA<T> {
        LumaA { data: [self.data[0].sub_spec(rhs.data[0]), self.data[1].sub_spec(rhs.data[1])] }
    }
}

impl<T: Copy + Mul<Output = T>> Mul for LumaA<T> {
    type Output = LumaA<T>;

    /// The product of the two pixels, channel by channel.
    fn mul(self, rhs: LumaA<T>) -> (r: LumaA<T>) {
        LumaA { data: [self.data[0] * rhs.data[0], self.data[1] * rhs.data[1]] }
    }
}

impl<T: Copy + Mul<Output = T>> vstd::std_specs::ops::MulSpecImpl for LumaA<T> {
    open spec fn obeys_mul_spec() -> bool {
        <T as MulSpec>::obeys_mul_spec()
    }

    open spec fn mul_req(self, rhs: LumaA<T>) -> bool {
        self.data[0].mul_req(rhs.data[0]) && self.data[1].mul_req(rhs.data[1])
    }

    open spec fn mul_spec(self, rhs: LumaA<T>) -> LumaA<T> {
        LumaA { data: [self.data[0].mul_spec(rhs.data[0]), self.data[1].mul_spec(rhs.data[1])] }
    }
}

impl<T: Copy + Div<Output = T>> Div for LumaA<T> {
    type Output = LumaA<T>;

    /// The quotient of the two pixels, channel by channel.
    fn div(self, rhs: LumaA<T>) -> (r: LumaA<T>) {
        LumaA { data: [self.data[0] / rhs.data[0], self.data[1] / rhs.data[1]] }
    }
}

impl<T: Copy + Div<Output = T>> vstd::std_specs::ops::DivSpecImpl for LumaA<T> {
    open spec fn obeys_div_spec() -> bool {
        <T as DivSpec>::obeys_div_spec()
    }

    open spec fn div_req(self, rhs: LumaA<T>) -> bool {
        self.data[0].div_req(rhs.data[0]) && self.data[1].div_req(rhs.data[1])
    }

    open spec fn div_spec(self, rhs: LumaA<T>) -> LumaA<T> {
        LumaA { data: [self.data[0].div_spec(rhs.data[0]), self.data[1].div_spec(rhs.data[1])] }
    }
}

impl<T: Copy + Rem<Output = T>> Rem for LumaA<T> {
    type Output = LumaA<T>;

    /// The remainder of the two pixels, channel by channel.
    fn rem(self, rhs: LumaA<T>) -> (r: LumaA<T>) {
        LumaA { data: [self.data[0] % rhs.data[0], self.data[1] % rhs.data[1]] }
    }
}

impl<T: Copy + Rem<Output = T>> vstd::std_specs::ops::RemSpecImpl for LumaA<T> {
    open spec fn obeys_rem_spec() -> bool {
        <T as RemSpec>::obeys_rem_spec()
    }

    open spec fn rem_req(self, rhs: LumaA<T>) -> bool {
        self.data[0].rem_req(rhs.data[0]) && self.data[1].rem_req(rhs.data[1])
    }

    open spec fn rem_spec(self, rhs: LumaA<T>) -> LumaA<T> {
        LumaA { data: [self.data[0].rem_spec(rhs.data[0]), self.data[1].rem_spec(rhs.data[1])] }
    }
}

/// A red, a green and a blue value.
#[derive(Debug)]
pub struct Rgb<T> {
    pub data: [T; 3],
}

impl<T: Copy> Clone for Rgb<T> {
    fn clone(&self) -> (r: Self)
        ensures
            r == *self,
    {
        Rgb { data: self.data }
    }
}

impl<T: Copy> Copy for Rgb<T> {

}

impl<T: Copy + PartialEq> PartialEq for Rgb<T> {
    fn eq(&self, other: &Self) -> (r: bool) {
        self.data[0] == other.data[0] && self.data[1] == other.data[1] && self.data[2] == other.data[2]
    }
}

impl<T: Copy + PartialEq> vstd::std_specs::cmp::PartialEqSpecImpl for Rgb<T> {
    open spec fn obeys_eq_spec() -> bool {
        T::obeys_eq_spec()
    }

    open spec fn eq_spec(&self, other: &Self) -> bool {
        self.data[0].eq_spec(&other.data[0]) && self.data[1].eq_spec(&other.data[1]) && self.data[2].eq_spec(&other.data[2])
    }
}

impl<T: Copy> Rgb<T> {
    /// Create a pixel from its channel values.
    pub fn new(data: [T; 3]) -> (p: Self)
        ensures
            p.data == data,
    {
        Rgb { data }
    }
}

impl<T: Copy + Default> Default for Rgb<T> {
    /// The pixel whose channels are the default value of the channel type.
    fn default() -> (p: Self)
        ensures
            forall|i: int| 0 <= i < 3 ==> call_ensures(T::default, (), #[trigger] p.data@[i]),
    {
        let c = T::default();
        Rgb { data: [c, c, c] }
    }
}

impl<T: Copy + PartialEq> Pixel for Rgb<T> {
    type Subpixel = T;

    const N_CHANNELS: u32 = 3;

    open spec fn spec_channels(&self) -> Seq<T> {
        self.data@
    }

    fn channels(&self) -> (s: &[T]) {
        assert(self.data@.len() == 3);
        assert(Self::N_CHANNELS == 3);
        self.data.as_slice()
    }

    fn channels_mut(&mut self) -> (s: &mut [T]) {
        assert(self.data@.len() == 3);
        &mut self.data
    }

    fn from_slice(s: &[T]) -> (p: Self) {
        Rgb { data: [s[0], s[1], s[2]] }
    }

    fn set_to_slice(&mut self, s: &[T]) {
        self.data = [s[0], s[1], s[2]];
    }

    fn map<F>(&self, f: F) -> (p: Self) where F: Fn(T) -> T {
        assert(self.data@.len() == 3);
        assert(self.spec_channels()[0] == self.data[0]);
        assert(self.spec_channels()[1] == self.data[1]);
        assert(self.spec_channels()[2] == self.data[2]);
        let c0 = f(self.data[0]);
        let c1 = f(self.data[1]);
        let c2 = f(self.data[2]);
        Rgb { data: [c0, c1, c2] }
    }
}

impl<T> PixelOps for Rgb<T> where
    T: Copy + PartialEq + Add<Output = T> + Sub<Output = T> + Mul<Output = T> + Div<Output = T> + Rem<
        Output = T,
    >,
 {

}

impl<T: Copy + Add<Output = T>> Add for Rgb<T> {
    type Output = Rgb<T>;

    /// The sum of the two pixels, channel by channel.
    fn add(self, rhs: Rgb<T>) -> (r: Rgb<T>) {
        Rgb { data: [self.data[0] + rhs.data[0], self.data[1] + rhs.data[1], self.data[2] + rhs.data[2]] }
    }
}

impl<T: Copy + Add<Output = T>> vstd::std_specs::ops::AddSpecImpl for Rgb<T> {
    open spec fn obeys_add_spec() -> bool {
        <T as AddSpec>::obeys_add_spec()
    }

    open spec fn add_req(self, rhs: Rgb<T>) -> bool {
        self.data[0].add_req(rhs.data[0]) && self.data[1].add_req(rhs.data[1]) && self.data[2].add_req(rhs.data[2])
    }

    open spec fn add_spec(self, rhs: Rgb<T>) -> Rgb<T> {
        Rgb { data: [self.data[0].add_spec(rhs.data[0]), self.data[1].add_spec(rhs.data[1]), self.data[2].add_spec(rhs.data[2])] }
    }
}

impl<T: Copy + Sub<Output = T>> Sub for Rgb<T> {
    type Output = Rgb<T>;

    /// The difference of the two pixels, channel by channel.
    fn sub(self, rhs: Rgb<T>) -> (r: Rgb<T>) {
        Rgb { data: [self.data[0] - rhs.data[0], self.data[1] - rhs.data[1], self.data[2] - rhs.data[2]] }
    }
}

impl<T: Copy + Sub<Output = T>> vstd::std_specs::ops::SubSpecImpl for Rgb<T> {
    open spec fn obeys_sub_spec() -> bool {
        <T as SubSpec>::obeys_sub_spec()
    }

    open spec fn sub_req(self, rhs: Rgb<T>) -> bool {
        self.data[0].sub_req(rhs.data[0]) && self.data[1].sub_req(rhs.data[1]) && self.data[2].sub_req(rhs.data[2])
    }

    open spec fn sub_spec(self, rhs: Rgb<T>) -> Rgb<T> {
        Rgb { data: [self.data[0].sub_spec(rhs.data[0]), self.data[1].sub_spec(rhs.data[1]), self.data[2].sub_spec(rhs.data[2])] }
    }
}

impl<T: Copy + Mul<Output = T>> Mul for Rgb<T> {
    type Output = Rgb<T>;

    /// The product of the two pixels, channel by channel.
    fn mul(self, rhs: Rgb<T>) -> (r: Rgb<T>) {
        Rgb { data: [self.data[0] * rhs.data[0], self.data[1] * rhs.data[1], self.data[2] * rhs.data[2]] }
    }
}

impl<T: Copy + Mul<Output = T>> vstd::std_specs::ops::MulSpecImpl for Rgb<T> {
    open spec fn obeys_mul_spec() -> bool {
        <T as MulSpec>::obeys_mul_spec()
    }

    open spec fn mul_req(self, rhs: Rgb<T>) -> bool {
        self.data[0].mul_req(rhs.data[0]) && self.data[1].mul_req(rhs.data[1]) && self.data[2].mul_req(rhs.data[2])
    }

    open spec fn mul_spec(self, rhs: Rgb<T>) -> Rgb<T> {
        Rgb { data: [self.data[0].mul_spec(rhs.data[0]), self.data[1].mul_spec(rhs.data[1]), self.data[2].mul_spec(rhs.data[2])] }
    }
}

impl<T: Copy + Div<Output = T>> Div for Rgb<T> {
    type Output = Rgb<T>;

    /// The quotient of the two pixels, channel by channel.
    fn div(self, rhs: Rgb<T>) -> (r: Rgb<T>) {
        Rgb { data: [self.data[0] / rhs.data[0], self.data[1] / rhs.data[1], self.data[2] / rhs.data[2]] }
    }
}

impl<T: Copy + Div<Output = T>> vstd::std_specs::ops::DivSpecImpl for Rgb<T> {
    open spec fn obeys_div_spec() -> bool {
        <T as DivSpec>::obeys_div_spec()
    }

    open spec fn div_req(self, rhs: Rgb<T>) -> bool {
        self.data[0].div_req(rhs.data[0]) && self.data[1].div_req(rhs.data[1]) && self.data[2].div_req(rhs.data[2])
    }

    open spec fn div_spec(self, rhs: Rgb<T>) -> Rgb<T> {
        Rgb { data: [self.data[0].div_spec(rhs.data[0]), self.data[1].div_spec(rhs.data[1]), self.data[2].div_spec(rhs.data[2])] }
    }
}

impl<T: Copy + Rem<Output = T>> Rem for Rgb<T> {
    type Output = Rgb<T>;

    /// The remainder of the two pixels, channel by channel.
    fn rem(self, rhs: Rgb<T>) -> (r: Rgb<T>) {
        Rgb { data: [self.data[0] % rhs.data[0], self.data[1] % rhs.data[1], self.data[2] % rhs.data[2]] }
    }
}

impl<T: Copy + Rem<Output = T>> vstd::std_specs::ops::RemSpecImpl for Rgb<T> {
    open spec fn obeys_rem_spec() -> bool {
        <T as RemSpec>::obeys_rem_spec()
    }

    open spec fn rem_req(self, rhs: Rgb<T>) -> bool {
        self.data[0].rem_req(rhs.data[0]) && self.data[1].rem_req(rhs.data[1]) && self.data[2].rem_req(rhs.data[2])
    }

    open spec fn rem_spec(self, rhs: Rgb<T>) -> Rgb<T> {
        Rgb { data: [self.data[0].rem_spec(rhs.data[0]), self.data[1].rem_spec(rhs.data[1]), self.data[2].rem_spec(rhs.data[2])] }
    }
}

/// A red, a green and a blue value, and an alpha value.
#[derive(Debug)]
pub struct RgbA<T> {
    pub data: [T; 4],
}

impl<T: Copy> Clone for RgbA<T> {
    fn clone(&self) -> (r: Self)
        ensures
            r == *self,
    {
        RgbA { data: self.data }
    }
}

impl<T: Copy> Copy for RgbA<T> {

}

impl<T: Copy + PartialEq> PartialEq for RgbA<T> {
    fn eq(&self, other: &Self) -> (r: bool) {
        self.data[0] == other.data[0] && self.data[1] == other.data[1] && self.data[2] == other.data[2] && self.data[3] == other.data[3]
    }
}

impl<T: Copy + PartialEq> vstd::std_specs::cmp::PartialEqSpecImpl for RgbA<T> {
    open spec fn obeys_eq_spec() -> bool {
        T::obeys_eq_spec()
    }

    open spec fn eq_spec(&self, other: &Self) -> bool {
        self.data[0].eq_spec(&other.data[0]) && self.data[1].eq_spec(&other.data[1]) && self.data[2].eq_spec(&other.data[2]) && self.data[3].eq_spec(&other.data[3])
    }
}

impl<T: Copy> RgbA<T> {
    /// Create a pixel from its channel values.
    pub fn new(data: [T; 4]) -> (p: Self)
        ensures
            p.data == data,
    {
        RgbA { data }
    }
}

impl<T: Copy + Default> Default for RgbA<T> {
    /// The pixel whose channels are the default value of the channel type.
    fn default() -> (p: Self)
        ensures
            forall|i: int| 0 <= i < 4 ==> call_ensures(T::default, (), #[trigger] p.data@[i]),
    {
        let c = T::default();
        RgbA { data: [c, c, c, c] }
    }
}

impl<T: Copy + PartialEq> Pixel for RgbA<T> {
    type Subpixel = T;

    const N_CHANNELS: u32 = 4;

    open spec fn spec_channels(&self) -> Seq<T> {
        self.data@
    }

    fn channels(&self) -> (s: &[T]) {
        assert(self.data@.len() == 4);
        assert(Self::N_CHANNELS == 4);
        self.data.as_slice()
    }

    fn channels_mut(&mut self) -> (s: &mut [T]) {
        assert(self.data@.len() == 4);
        &mut self.data
    }

    fn from_slice(s: &[T]) -> (p: Self) {
        RgbA { data: [s[0], s[1], s[2], s[3]] }
    }

    fn set_to_slice(&mut self, s: &[T]) {
        self.data = [s[0], s[1], s[2], s[3]];
    }

    fn map<F>(&self, f: F) -> (p: Self) where F: Fn(T) -> T {
        assert(self.data@.len() == 4);
        assert(self.spec_channels()[0] == self.data[0]);
        assert(self.spec_channels()[1] == self.data[1]);
        assert(self.spec_channels()[2] == self.data[2]);
        assert(self.spec_channels()[3] == self.data[3]);
        let c0 = f(self.data[0]);
        let c1 = f(self.data[1]);
        let c2 = f(self.data[2]);
        let c3 = f(self.data[3]);
        RgbA { data: [c0, c1, c2, c3] }
    }
}

impl<T> PixelOps for RgbA<T> where
    T: Copy + PartialEq + Add<Output = T> + Sub<Output = T> + Mul<Output = T> + Div<Output = T> + Rem<
        Output = T,
    >,
 {

}

impl<T: Copy + Add<Output = T>> Add for RgbA<T> {
    type Output = RgbA<T>;

    /// The sum of the two pixels, channel by channel.
    fn add(self, rhs: RgbA<T>) -> (r: RgbA<T>) {
        RgbA { data: [self.data[0] + rhs.data[0], self.data[1] + rhs.data[1], self.data[2] + rhs.data[2], self.data[3] + rhs.data[3]] }
    }
}

impl<T: Copy + Add<Output = T>> vstd::std_specs::ops::AddSpecImpl for RgbA<T> {
    open spec fn obeys_add_spec() -> bool {
        <T as AddSpec>::obeys_add_spec()
    }

    open spec fn add_req(self, rhs: RgbA<T>) -> bool {
        self.data[0].add_req(rhs.data[0]) && self.data[1].add_req(rhs.data[1]) && self.data[2].add_req(rhs.data[2]) && self.data[3].add_req(rhs.data[3])
    }

    open spec fn add_spec(self, rhs: RgbA<T>) -> RgbA<T> {
        RgbA { data: [self.data[0].add_spec(rhs.data[0]), self.data[1].add_spec(rhs.data[1]), self.data[2].add_spec(rhs.data[2]), self.data[3].add_spec(rhs.data[3])] }
    }
}

impl<T: Copy + Sub<Output = T>> Sub for RgbA<T> {
    type Output = RgbA<T>;

    /// The difference of the two pixels, channel by channel.
    fn sub(self, rhs: RgbA<T>) -> (r: RgbA<T>) {
        RgbA { data: [self.data[0] - rhs.data[0], self.data[1] - rhs.data[1], self.data[2] - rhs.data[2], self.data[3] - rhs.data[3]] }
    }
}

impl<T: Copy + Sub<Output = T>> vstd::std_specs::ops::SubSpecImpl for RgbA<T> {
    open spec fn obeys_sub_spec() -> bool {
        <T as SubSpec>::obeys_sub_spec()
    }

    open spec fn sub_req(self, rhs: RgbA<T>) -> bool {
        self.data[0].sub_req(rhs.data[0]) && self.data[1].sub_req(rhs.data[1]) && self.data[2].sub_req(rhs.data[2]) && self.data[3].sub_req(rhs.data[3])
    }

    open spec fn sub_spec(self, rhs: RgbA<T>) -> RgbA<T> {
        RgbA { data: [self.data[0].sub_spec(rhs.data[0]), self.data[1].sub_spec(rhs.data[1]), self.data[2].sub_spec(rhs.data[2]), self.data[3].sub_spec(rhs.data[3])] }
    }
}

impl<T: Copy + Mul<Output = T>> Mul for RgbA<T> {
    type Output = RgbA<T>;

    /// The product of the two pixels, channel by channel.
    fn mul(self, rhs: RgbA<T>) -> (r: RgbA<T>) {
        RgbA { data: [self.data[0] * rhs.data[0], self.data[1] * rhs.data[1], self.data[2] * rhs.data[2], self.data[3] * rhs.data[3]] }
    }
}

impl<T: Copy + Mul<Output = T>> vstd::std_specs::ops::MulSpecImpl for RgbA<T> {
    open spec fn obeys_mul_spec() -> bool {
        <T as MulSpec>::obeys_mul_spec()
    }

    open spec fn mul_req(self, rhs: RgbA<T>) -> bool {
        self.data[0].mul_req(rhs.data[0]) && self.data[1].mul_req(rhs.data[1]) && self.data[2].mul_req(rhs.data[2]) && self.data[3].mul_req(rhs.data[3])
    }

    open spec fn mul_spec(self, rhs: RgbA<T>) -> RgbA<T> {
        RgbA { data: [self.data[0].mul_spec(rhs.data[0]), self.data[1].mul_spec(rhs.data[1]), self.data[2].mul_spec(rhs.data[2]), self.data[3].mul_spec(rhs.data[3])] }
    }
}

impl<T: Copy + Div<Output = T>> Div for RgbA<T> {
    type Output = RgbA<T>;

    /// The quotient of the two pixels, channel by channel.
    fn div(self, rhs: RgbA<T>) -> (r: RgbA<T>) {
        RgbA { data: [self.data[0] / rhs.data[0], self.data[1] / rhs.data[1], self.data[2] / rhs.data[2], self.data[3] / rhs.data[3]] }
    }
}

impl<T: Copy + Div<Output = T>> vstd::std_specs::ops::DivSpecImpl for RgbA<T> {
    open spec fn obeys_div_spec() -> bool {
        <T as DivSpec>::obeys_div_spec()
    }

    open spec fn div_req(self, rhs: RgbA<T>) -> bool {
        self.data[0].div_req(rhs.data[0]) && self.data[1].div_req(rhs.data[1]) && self.data[2].div_req(rhs.data[2]) && self.data[3].div_req(rhs.data[3])
    }

    open spec fn div_spec(self, rhs: RgbA<T>) -> RgbA<T> {
        RgbA { data: [self.data[0].div_spec(rhs.data[0]), self.data[1].div_spec(rhs.data[1]), self.data[2].div_spec(rhs.data[2]), self.data[3].div_spec(rhs.data[3])] }
    }
}

impl<T: Copy + Rem<Output = T>> Rem for RgbA<T> {
    type Output = RgbA<T>;

    /// The remainder of the two pixels, channel by channel.
    fn rem(self, rhs: RgbA<T>) -> (r: RgbA<T>) {
        RgbA { data: [self.data[0] % rhs.data[0], self.data[1] % rhs.data[1], self.data[2] % rhs.data[2], self.data[3] % rhs.data[3]] }
    }
}

impl<T: Copy + Rem<Output = T>> vstd::std_specs::ops::RemSpecImpl for RgbA<T> {
    open spec fn obeys_rem_spec() -> bool {
        <T as RemSpec>::obeys_rem_spec()
    }

    open spec fn rem_req(self, rhs: RgbA<T>) -> bool {
        self.data[0].rem_req(rhs.data[0]) && self.data[1].rem_req(rhs.data[1]) && self.data[2].rem_req(rhs.data[2]) && self.data[3].rem_req(rhs.data[3])
    }

    open spec fn rem_spec(self, rhs: RgbA<T>) -> RgbA<T> {
        RgbA { data: [self.data[0].rem_spec(rhs.data[0]), self.data[1].rem_spec(rhs.data[1]), self.data[2].rem_spec(rhs.data[2]), self.data[3].rem_spec(rhs.data[3])] }
    }
}

impl<T: Copy> From<T> for Luma<T> {
    /// The pixel whose grey level is `value`.
    fn from(value: T) -> (p: Self) {
        Luma { data: [value] }
    }
}

impl<T: Copy> vstd::std_specs::convert::FromSpecImpl<T> for Luma<T> {
    open spec fn obeys_from_spec() -> bool {
        true
    }

    open spec fn from_spec(value: T) -> Self {
        Luma { data: [value] }
    }
}

} // verus!
