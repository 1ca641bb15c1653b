//! A two-dimensional image buffer together with borrowed and mutably borrowed
//! windows onto it.
//!
//! An image is a window on a backing store of pixels in scanline order. The
//! store is owned ([`ImageBuffer2D`]), borrowed ([`Image2DView`]) or mutably
//! borrowed ([`Image2DViewMut`]); what can be read is in [`Image2D`], what
//! can be written in [`Image2DMut`].
//!
//! The contracts of the executable functions speak of the mathematical model
//! in [`grid`]: an image is a [`Grid`], and its place in its store a
//! [`Layout`].

pub mod buffer;
pub mod convert;
pub mod equality;
pub mod error;
pub mod grid;
pub mod image2d;
pub mod image2d_mut;
pub mod iter;
pub mod iter_mut;
pub mod ops;
pub mod pixel;
pub mod rect;
pub mod storage;
pub mod traits;

pub use convert::{luma_alpha_to_luma, rgba_to_rgb};
pub use error::ImageError;
pub use grid::{Grid, Layout};
pub use image2d::{
    BitDepth, Image2D, Image2DRepr, Image2DView, Image2DViewMut, ImageBuffer2D, ImageType,
};
pub use image2d_mut::Image2DMut;
pub use iter::{ColIter, ColsIter, IndexedIter, Iter, RectIter, RowIter, RowsIter};
pub use iter_mut::{
    ColIterMut, ColsIterMut, IndexedIterMut, IterMut, RectIterMut, RowIterMut, RowsIterMut,
};
pub use pixel::{Luma, LumaA, PixelType, Rgb, RgbA};
pub use rect::Rect;
pub use storage::{Data, OwnedRepr, ViewRepr, ViewReprMut};
pub use traits::{Pixel, PixelCast, PixelOps, PixelOpsRef, Primitive, Region};
