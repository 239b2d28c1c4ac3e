use image::ImageBuffer;
use image::Rgba;
use vstd::prelude::*;

verus! {

/// An RGBA image of the `image` crate: `width` by `height` pixels of four bytes,
/// row after row.
#[verifier::external_body]
pub struct RgbaRaster {
    image: ImageBuffer<Rgba<u8>, Vec<u8>>,
}

/// The bytes that an RGBA image holds: four per pixel, row after row.
pub uninterp spec fn raster_bytes(img: RgbaRaster) -> Seq<u8>;

/// The width and height that an RGBA image was made with.
pub uninterp spec fn raster_size(img: RgbaRaster) -> (u32, u32);

/// The number of bytes that `width` by `height` RGBA pixels take.
pub open spec fn rgba_len(width: u32, height: u32) -> int {
    4 * width * height
}

/// `ImageBuffer::from_raw`: an image of `width` by `height` RGBA pixels over `buf`,
/// made exactly when four bytes per pixel can be counted in a `usize` and `buf`
/// holds at least that many; the image keeps the size it was given and `buf`.
#[verifier::external_body]
pub(crate) fn raster_from_raw(width: u32, height: u32, buf: Vec<u8>) -> (img: Option<RgbaRaster>)
    ensures
        img is Some <==> (4 * width <= usize::MAX && rgba_len(width, height) <= usize::MAX
            && rgba_len(width, height) <= buf@.len()),
        img matches Some(i) ==> raster_size(i) == (width, height) && raster_bytes(i) == buf@,
{
    ImageBuffer::from_raw(width, height, buf).map(|image| RgbaRaster { image })
}

/// `ImageBuffer::dimensions`: the width and height of the image. Every constructor
/// of an `ImageBuffer` checks that its bytes cover that many pixels, so the bytes
/// number at least four per pixel.
#[verifier::external_body]
pub(crate) fn raster_dimensions(img: &RgbaRaster) -> (size: (u32, u32))
    ensures
        size == raster_size(*img),
        rgba_len(size.0, size.1) <= raster_bytes(*img).len(),
{
    img.image.dimensions()
}

/// `ImageBuffer::get_pixel`: the four bytes of the pixel in column `x`, row `y`,
/// which stand at `(y * width + x) * 4` in the image's bytes.
#[verifier::external_body]
pub(crate) fn raster_pixel(img: &RgbaRaster, x: u32, y: u32) -> (px: [u8; 4])
    requires
        x < raster_size(*img).0,
        y < raster_size(*img).1,
    ensures
        px@ == raster_bytes(*img).subrange(
            (y * raster_size(*img).0 + x) * 4,
            (y * raster_size(*img).0 + x) * 4 + 4,
        ),
{
    img.image.get_pixel(x, y).0
}

/// `ImageBuffer::into_raw`: the bytes that the image holds.
#[verifier::external_body]
pub(crate) fn raster_into_raw(img: RgbaRaster) -> (buf: Vec<u8>)
    ensures
        buf@ == raster_bytes(img),
{
    img.image.into_raw()
}

impl RgbaRaster {
    /// An image of `width` by `height` RGBA pixels over `buf`, made exactly when
    /// four bytes per pixel can be counted in a `usize` and `buf` holds at least
    /// that many.
    pub fn from_raw(width: u32, height: u32, buf: Vec<u8>) -> (img: Option<RgbaRaster>)
        ensures
            img is Some <==> (4 * width <= usize::MAX && rgba_len(width, height) <= usize::MAX
                && rgba_len(width, height) <= buf@.len()),
            img matches Some(i) ==> raster_size(i) == (width, height) && raster_bytes(i) == buf@,
    {
        raster_from_raw(width, height, buf)
    }

    /// The width and height of the image; its bytes cover that many pixels.
    pub fn dimensions(&self) -> (size: (u32, u32))
        ensures
            size == raster_size(*self),
            rgba_len(size.0, size.1) <= raster_bytes(*self).len(),
    {
        raster_dimensions(self)
    }

    /// The width, the height and the bytes of the image.
    pub fn into_parts(self) -> (parts: (u32, u32, Vec<u8>))
        ensures
            parts.0 == raster_size(self).0,
            parts.1 == raster_size(self).1,
            parts.2@ == raster_bytes(self),
    {
        let (w, h) = raster_dimensions(&self);
        (w, h, raster_into_raw(self))
    }
}

} // verus!
