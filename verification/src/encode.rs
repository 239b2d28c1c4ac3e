use vstd::prelude::*;

use crate::raster::raster_bytes;
use crate::raster::raster_dimensions;
use crate::raster::raster_from_raw;
use crate::raster::raster_pixel;
use crate::raster::raster_size;
use crate::raster::rgba_len;
use crate::raster::RgbaRaster;
use crate::schema::rgba_hex_chars;
use crate::schema::rgba_to_hex;
use crate::schema::ImageJson;
use crate::schema::Pixel;
use crate::schema::CHANNELS;
use crate::schema::COLOR_SPACE;
use crate::schema::VERSION;

verus! {

/// The colour text of the pixel in column `x`, row `y` of RGBA bytes laid out
/// `stride` pixels to a row.
pub open spec fn hex_at(bytes: Seq<u8>, stride: int, x: int, y: int) -> Seq<char> {
    let i = (y * stride + x) * 4;
    rgba_hex_chars(bytes[i], bytes[i + 1], bytes[i + 2], bytes[i + 3])
}

/// `rows` holds the top-left `width` by `height` pixels of RGBA bytes laid out
/// `stride` pixels to a row: row `y`, column `x` is the pixel at `(x, y)` with its
/// colour as `#RRGGBBAA`.
pub open spec fn rows_encode(
    rows: Seq<Vec<Pixel>>,
    bytes: Seq<u8>,
    stride: int,
    width: int,
    height: int,
) -> bool {
    &&& rows.len() == height
    &&& forall|y: int| 0 <= y < height ==> #[trigger] rows[y]@.len() == width
    &&& forall|y: int, x: int|
        0 <= y < height && 0 <= x < width ==> {
            let p = #[trigger] rows[y]@[x];
            &&& p.x == x
            &&& p.y == y
            &&& p.hex@ == hex_at(bytes, stride, x, y)
        }
}

proof fn lemma_pixel_in_bounds(x: int, y: int, w: int, h: int)
    requires
        0 <= x < w,
        0 <= y < h,
    ensures
        0 <= (y * w + x) * 4,
        (y * w + x) * 4 + 4 <= 4 * w * h,
{
    assert((y * w + x) * 4 + 4 <= 4 * w * h) by (nonlinear_arith)
        requires
            0 <= x < w,
            0 <= y < h,
    ;
    assert(0 <= y * w) by (nonlinear_arith)
        requires
            0 <= y,
            0 <= w,
    ;
}

/// The first `width` pixels of row `y` of an image, each with its position and
/// its colour as `#RRGGBBAA`.
pub fn encode_row(rgba: &RgbaRaster, width: u32, y: u32) -> (row: Vec<Pixel>)
    requires
        width <= raster_size(*rgba).0,
        y < raster_size(*rgba).1,
    ensures
        row@.len() == width,
        forall|x: int|
            0 <= x < width ==> {
                let p = #[trigger] row@[x];
                &&& p.x == x
                &&& p.y == y
                &&& p.hex@ == hex_at(raster_bytes(*rgba), raster_size(*rgba).0 as int, x, y as int)
            },
{
    let ghost bytes = raster_bytes(*rgba);
    let ghost stride = raster_size(*rgba).0 as int;
    let size = raster_dimensions(rgba);
    let mut row: Vec<Pixel> = Vec::new();
    let mut x: u32 = 0;
    while x < width
        invariant
            x <= width,
            y < size.1,
            width <= size.0,
            bytes == raster_bytes(*rgba),
            stride == size.0 as int,
            rgba_len(size.0, size.1) <= bytes.len(),
            size == raster_size(*rgba),
            row@.len() == x,
            forall|c: int|
                0 <= c < x ==> {
                    let p = #[trigger] row@[c];
                    &&& p.x == c
                    &&& p.y == y
                    &&& p.hex@ == hex_at(bytes, stride, c, y as int)
                },
        decreases width - x,
    {
        let px = raster_pixel(rgba, x, y);
        let ghost i = (y * stride + x) * 4;
        proof {
            lemma_pixel_in_bounds(x as int, y as int, size.0 as int, size.1 as int);
        }
        assert(px@[0] == bytes[i] && px@[1] == bytes[i + 1] && px@[2] == bytes[i + 2]
            && px@[3] == bytes[i + 3]);
        let hex = rgba_to_hex(px[0], px[1], px[2], px[3]);
        row.push(Pixel { x, y, hex });
        x = x + 1;
    }
    row
}

/// The pixels of the top-left `width` by `height` part of an image, row by row,
/// each with its position and its colour as `#RRGGBBAA`.
pub fn encode_rows_cpu(rgba: &RgbaRaster, width: u32, height: u32) -> (rows: Vec<Vec<Pixel>>)
    requires
        width <= raster_size(*rgba).0,
        height <= raster_size(*rgba).1,
    ensures
        rows_encode(rows@, raster_bytes(*rgba), raster_size(*rgba).0 as int, width as int, height as int),
{
    let mut rows: Vec<Vec<Pixel>> = Vec::new();
    let mut y: u32 = 0;
    while y < height
        invariant
            y <= height,
            height <= raster_size(*rgba).1,
            width <= raster_size(*rgba).0,
            rows_encode(rows@, raster_bytes(*rgba), raster_size(*rgba).0 as int, width as int, y as int),
        decreases height - y,
    {
        let row = encode_row(rgba, width, y);
        rows.push(row);
        y = y + 1;
    }
    rows
}

/// The document for an image of `width` by `height` RGBA pixels given by their
/// bytes, row after row: `None` when the bytes are too few for that size.
pub fn encode_document(width: u32, height: u32, pixels: Vec<u8>) -> (doc: Option<ImageJson>)
    ensures
        doc is Some <==> (4 * width <= usize::MAX && rgba_len(width, height) <= usize::MAX
            && rgba_len(width, height) <= pixels@.len()),
        doc matches Some(d) ==> {
            &&& d.img2jx_version@ == VERSION@
            &&& d.color_space@ == COLOR_SPACE@
            &&& d.channels@ == CHANNELS@
            &&& d.width == width
            &&& d.height == height
            &&& rows_encode(d.rows@, pixels@, width as int, width as int, height as int)
        },
{
    let ghost bytes = pixels@;
    match raster_from_raw(width, height, pixels) {
        Some(rgba) => {
            let rows = encode_rows_cpu(&rgba, width, height);
            Some(ImageJson::new(width, height, rows))
        },
        None => None,
    }
}

} // verus!
