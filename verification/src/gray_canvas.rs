//! The storage of a pixel buffer: a grey-scale image of the `image` crate,
//! one byte to a pixel. Nothing in this file is proved; each contract states
//! what the crate's documentation and source show of the call it wraps.

use image::{GrayImage, Luma};
use vstd::prelude::*;

verus! {

/// An `image::GrayImage`.
#[verifier::external_body]
pub struct GrayCanvas {
    inner: GrayImage,
}

/// The pixels of the image, row by row: `pixel_rows(c)[y][x]` is the
/// intensity that `image` keeps at `(x, y)`.
pub uninterp spec fn pixel_rows(c: GrayCanvas) -> Seq<Seq<u8>>;

/// The width of the image, which an image without rows still has.
pub uninterp spec fn pixel_cols(c: GrayCanvas) -> nat;

impl GrayCanvas {
    /// `GrayImage::new(width, height)`: an image of that size with every
    /// pixel at zero. The call panics when the pixels outnumber what a vector
    /// can hold, which `requires` leaves out.
    #[verifier::external_body]
    pub(crate) fn new(width: u32, height: u32) -> (c: GrayCanvas)
        requires
            width * height <= isize::MAX,
        ensures
            pixel_rows(c).len() == height,
            pixel_cols(c) == width,
            forall|x: int, y: int|
                0 <= x < width && 0 <= y < height ==> #[trigger] pixel_rows(c)[y][x] == 0,
    {
        GrayCanvas { inner: GrayImage::new(width, height) }
    }

    /// `ImageBuffer::width`.
    #[verifier::external_body]
    pub(crate) fn width(&self) -> (width: u32)
        ensures
            width == pixel_cols(*self),
    {
        self.inner.width()
    }

    /// `ImageBuffer::height`.
    #[verifier::external_body]
    pub(crate) fn height(&self) -> (height: u32)
        ensures
            height == pixel_rows(*self).len(),
    {
        self.inner.height()
    }

    /// `ImageBuffer::get_pixel(x, y)`: the one channel of the pixel at that
    /// place. It panics out of bounds, which `requires` leaves out.
    #[verifier::external_body]
    pub(crate) fn get_pixel(&self, x: u32, y: u32) -> (value: u8)
        requires
            x < pixel_cols(*self),
            y < pixel_rows(*self).len(),
        ensures
            value == pixel_rows(*self)[y as int][x as int],
    {
        self.inner.get_pixel(x, y).0[0]
    }

    /// `ImageBuffer::put_pixel(x, y, Luma([value]))`: that pixel becomes
    /// `value`, every other pixel and the size stay. It panics out of bounds,
    /// which `requires` leaves out.
    #[verifier::external_body]
    pub(crate) fn put_pixel(&mut self, x: u32, y: u32, value: u8)
        requires
            x < pixel_cols(*old(self)),
            y < pixel_rows(*old(self)).len(),
        ensures
            pixel_rows(*final(self)).len() == pixel_rows(*old(self)).len(),
            pixel_cols(*final(self)) == pixel_cols(*old(self)),
            pixel_rows(*final(self))[y as int][x as int] == value,
            forall|i: int, j: int|
                0 <= i < pixel_cols(*old(self)) && 0 <= j < pixel_rows(*old(self)).len() && (i != x
                    || j != y) ==> #[trigger] pixel_rows(*final(self))[j][i] == pixel_rows(
                    *old(self),
                )[j][i],
    {
        self.inner.put_pixel(x, y, Luma([value]));
    }

    /// `ImageBuffer::into_raw`: the bytes of the image, one to a pixel, the
    /// rows one after another from the top.
    #[verifier::external_body]
    pub(crate) fn into_raw(self) -> (bytes: Vec<u8>)
        ensures
            bytes@.len() == pixel_cols(self) * pixel_rows(self).len(),
            forall|x: int, y: int|
                0 <= x < pixel_cols(self) && 0 <= y < pixel_rows(self).len() ==> bytes@[y
                    * pixel_cols(self) + x] == #[trigger] pixel_rows(self)[y][x],
    {
        self.inner.into_raw()
    }
}

} // verus!
