use vstd::prelude::*;

use crate::decode::hex_bytes;
use crate::decode::pixel_rgba;
use crate::decode::DecodeError;
use crate::schema::hex_to_rgba;
use crate::schema::spec_hex_to_rgba;
use crate::schema::ImageJson;
use crate::raster::raster_bytes;
use crate::raster::raster_dimensions;
use crate::raster::raster_from_raw;
use crate::raster::raster_pixel;
use crate::raster::raster_size;
use crate::raster::rgba_len;
use crate::raster::RgbaRaster;
use crate::encode::hex_at;
use crate::encode::rows_encode;
use crate::schema::rgba_to_hex;
use crate::schema::Pixel;

verus! {

/// Four channel bytes as one little-endian 32-bit word: red in the lowest byte,
/// alpha in the highest.
pub open spec fn packed_word(c: Seq<u8>) -> u32 {
    (c[0] + c[1] * 0x100 + c[2] * 0x10000 + c[3] * 0x1000000) as u32
}

/// The four channel bytes of a 32-bit word, lowest byte first.
pub open spec fn word_channels(v: u32) -> Seq<u8> {
    seq![(v % 0x100) as u8, (v / 0x100 % 0x100) as u8, (v / 0x10000 % 0x100) as u8, (v / 0x1000000) as u8]
}

/// One pixel's channels as the word that the compute shaders work on.
pub fn pack_rgba(c: [u8; 4]) -> (v: u32)
    ensures
        v == packed_word(c@),
{
    let (r, g, b, a) = (c[0] as u32, c[1] as u32, c[2] as u32, c[3] as u32);
    assert(r | (g << 8) | (b << 16) | (a << 24) == r + g * 0x100 + b * 0x10000 + a * 0x1000000)
        by (bit_vector)
        requires
            r < 256,
            g < 256,
            b < 256,
            a < 256,
    ;
    r | (g << 8) | (b << 16) | (a << 24)
}

/// The channels of a word that the compute shaders give back.
pub fn unpack_rgba(v: u32) -> (c: [u8; 4])
    ensures
        c@ == word_channels(v),
{
    assert(v & 0xff == v % 0x100 && (v >> 8) & 0xff == v / 0x100 % 0x100 && (v >> 16) & 0xff
        == v / 0x10000 % 0x100 && (v >> 24) & 0xff == v / 0x1000000) by (bit_vector);
    let c = [
        (v & 0xff) as u8,
        ((v >> 8) & 0xff) as u8,
        ((v >> 16) & 0xff) as u8,
        ((v >> 24) & 0xff) as u8,
    ];
    assert(c@ =~= word_channels(v));
    c
}

/// Unpacking a packed pixel gives its channels back.
pub proof fn lemma_unpack_pack(c: Seq<u8>)
    requires
        c.len() == 4,
    ensures
        word_channels(packed_word(c)) == c,
{
    let (r, g, b, a) = (c[0], c[1], c[2], c[3]);
    let v = packed_word(c);
    assert(v == r + g * 0x100 + b * 0x10000 + a * 0x1000000);
    assert(word_channels(v) =~= c) by {
        assert(v % 0x100 == r && v / 0x100 % 0x100 == g && v / 0x10000 % 0x100 == b && v
            / 0x1000000 == a) by (nonlinear_arith)
            requires
                v == r + g * 0x100 + b * 0x10000 + a * 0x1000000,
                r < 256,
                g < 256,
                b < 256,
                a < 256,
        ;
    }
}

/// Packing the channels of a word gives the word back.
pub proof fn lemma_pack_unpack(v: u32)
    ensures
        packed_word(word_channels(v)) == v,
{
    let c = word_channels(v);
    assert(v % 0x100 + v / 0x100 % 0x100 * 0x100 + v / 0x10000 % 0x100 * 0x10000 + v / 0x1000000
        * 0x1000000 == v) by (nonlinear_arith);
}

/// A packed word holds red in its bits 0 to 7, green in bits 8 to 15, blue in
/// bits 16 to 23 and alpha in bits 24 to 31.
pub proof fn lemma_packed_word_bits(c: Seq<u8>)
    requires
        c.len() == 4,
    ensures
        packed_word(c) & 0xff == c[0],
        (packed_word(c) >> 8) & 0xff == c[1],
        (packed_word(c) >> 16) & 0xff == c[2],
        packed_word(c) >> 24 == c[3],
{
    let (r, g, b, a) = (c[0] as u32, c[1] as u32, c[2] as u32, c[3] as u32);
    let v = packed_word(c);
    assert(v == r + g * 0x100 + b * 0x10000 + a * 0x1000000);
    assert(v & 0xff == r && (v >> 8) & 0xff == g && (v >> 16) & 0xff == b && v >> 24 == a)
        by (bit_vector)
        requires
            v == r + g * 0x100 + b * 0x10000 + a * 0x1000000,
            r < 256,
            g < 256,
            b < 256,
            a < 256,
    ;
}

/// The channels of a word are its bits 0 to 7, 8 to 15, 16 to 23 and 24 to 31,
/// in that order.
pub proof fn lemma_word_channels_bits(v: u32)
    ensures
        word_channels(v) == seq![
            (v & 0xff) as u8,
            ((v >> 8) & 0xff) as u8,
            ((v >> 16) & 0xff) as u8,
            (v >> 24) as u8,
        ],
{
    assert(v & 0xff == v % 0x100 && (v >> 8) & 0xff == v / 0x100 % 0x100 && (v >> 16) & 0xff
        == v / 0x10000 % 0x100 && v >> 24 == v / 0x1000000) by (bit_vector);
    assert(word_channels(v) =~= seq![
        (v & 0xff) as u8,
        ((v >> 8) & 0xff) as u8,
        ((v >> 16) & 0xff) as u8,
        (v >> 24) as u8,
    ]);
}

/// The words of the first `n` pixels of RGBA bytes, one word per four bytes.
pub open spec fn packed_words(bytes: Seq<u8>, n: int) -> Seq<u32> {
    Seq::new(n as nat, |i: int| packed_word(bytes.subrange(4 * i, 4 * i + 4)))
}

/// The bytes of words, four per word, lowest byte first.
pub open spec fn unpacked_bytes(words: Seq<u32>) -> Seq<u8> {
    Seq::new((4 * words.len()) as nat, |k: int| word_channels(words[k / 4])[k % 4])
}

proof fn lemma_index_in_grid(x: int, y: int, w: int, h: int)
    requires
        0 <= x < w,
        0 <= y < h,
    ensures
        0 <= y * w + x < w * h,
{
    assert(0 <= y * w + x < w * h) by (nonlinear_arith)
        requires
            0 <= x < w,
            0 <= y < h,
    ;
}

/// The words of all pixels of an image of `width` by `height` pixels given by
/// their bytes, row after row, for the compute shader: `None` when the bytes are
/// too few for that size.
pub fn pack_pixels(width: u32, height: u32, pixels: Vec<u8>) -> (words: Option<Vec<u32>>)
    ensures
        words is Some <==> (4 * width <= usize::MAX && rgba_len(width, height) <= usize::MAX
            && rgba_len(width, height) <= pixels@.len()),
        words matches Some(ws) ==> ws@ == packed_words(pixels@, width * height),
{
    let ghost bytes = pixels@;
    let rgba = match raster_from_raw(width, height, pixels) {
        Some(rgba) => rgba,
        None => {
            return None;
        },
    };
    let size = raster_dimensions(&rgba);
    let mut words: Vec<u32> = Vec::new();
    let mut y: u32 = 0;
    while y < height
        invariant
            y <= height,
            size == (width, height),
            raster_size(rgba) == size,
            raster_bytes(rgba) == bytes,
            rgba_len(width, height) <= bytes.len(),
            words@.len() == y * width,
            forall|i: int|
                0 <= i < y * width ==> #[trigger] words@[i] == packed_word(
                    bytes.subrange(4 * i, 4 * i + 4),
                ),
        decreases height - y,
    {
        let mut x: u32 = 0;
        while x < width
            invariant
                x <= width,
                y < height,
                size == (width, height),
                raster_size(rgba) == size,
                raster_bytes(rgba) == bytes,
                rgba_len(width, height) <= bytes.len(),
                words@.len() == y * width + x,
                forall|i: int|
                    0 <= i < y * width + x ==> #[trigger] words@[i] == packed_word(
                        bytes.subrange(4 * i, 4 * i + 4),
                    ),
            decreases width - x,
        {
            proof {
                lemma_index_in_grid(x as int, y as int, width as int, height as int);
                assert(4 * (width * height) == rgba_len(width, height)) by (nonlinear_arith);
            }
            let px = raster_pixel(&rgba, x, y);
            words.push(pack_rgba(px));
            x = x + 1;
        }
        assert((y + 1) * width == y * width + width) by (nonlinear_arith);
        y = y + 1;
    }
    assert(height * width == width * height) by (nonlinear_arith);
    assert(words@ =~= packed_words(bytes, width * height));
    Some(words)
}

/// The rows of pixels for words that the compute shader gave back: the word at
/// `y * width + x` is the pixel in column `x`, row `y`.
pub fn rows_from_packed(processed: &[u32], width: u32, height: u32) -> (rows: Vec<Vec<Pixel>>)
    requires
        width * height <= processed@.len(),
        width * height <= u32::MAX + 1,
    ensures
        rows_encode(
            rows@,
            unpacked_bytes(processed@),
            width as int,
            width as int,
            height as int,
        ),
{
    let ghost bytes = unpacked_bytes(processed@);
    let mut rows: Vec<Vec<Pixel>> = Vec::new();
    let mut y: u32 = 0;
    while y < height
        invariant
            y <= height,
            width * height <= processed@.len(),
            width * height <= u32::MAX + 1,
            bytes == unpacked_bytes(processed@),
            rows_encode(rows@, bytes, width as int, width as int, y as int),
        decreases height - y,
    {
        let mut row: Vec<Pixel> = Vec::new();
        let mut x: u32 = 0;
        while x < width
            invariant
                x <= width,
                y < height,
                width * height <= processed@.len(),
                width * height <= u32::MAX + 1,
                bytes == unpacked_bytes(processed@),
                row@.len() == x,
                forall|c: int|
                    0 <= c < x ==> {
                        let p = #[trigger] row@[c];
                        &&& p.x == c
                        &&& p.y == y
                        &&& p.hex@ == hex_at(bytes, width as int, c, y as int)
                    },
            decreases width - x,
        {
            proof {
                lemma_index_in_grid(x as int, y as int, width as int, height as int);
            }
            let idx = (y * width + x) as usize;
            let c = unpack_rgba(processed[idx]);
            let ghost i = (y * width + x) * 4;
            assert(c@[0] == bytes[i] && c@[1] == bytes[i + 1] && c@[2] == bytes[i + 2] && c@[3]
                == bytes[i + 3]);
            let hex = rgba_to_hex(c[0], c[1], c[2], c[3]);
            row.push(Pixel { x, y, hex });
            x = x + 1;
        }
        rows.push(row);
        y = y + 1;
    }
    rows
}

// ---------------------------------------------------------------------------
// Document pixels to words and back to bytes
// ---------------------------------------------------------------------------

/// The first column, from column `col` on, whose colour is not `#RRGGBBAA`.
pub open spec fn colour_scan_from(row: Seq<Pixel>, col: int) -> Option<usize>
    decreases row.len() - col,
{
    if col < 0 || col >= row.len() {
        None
    } else if spec_hex_to_rgba(hex_bytes(row[col])) is None {
        Some(col as usize)
    } else {
        colour_scan_from(row, col + 1)
    }
}

/// How reading the colours of all rows ends, row after row, from row `i` on.
pub enum DocScan {
    /// Every colour was read.
    Complete,
    /// The colour in this row and column is the first that is not `#RRGGBBAA`.
    BadHexAt(usize, usize),
}

/// How reading the colours of the rows from row `i` on ends.
pub open spec fn doc_scan_from(rows: Seq<Vec<Pixel>>, i: int) -> DocScan
    decreases rows.len() - i,
{
    if i < 0 || i >= rows.len() {
        DocScan::Complete
    } else {
        match colour_scan_from(rows[i]@, 0) {
            None => doc_scan_from(rows, i + 1),
            Some(c) => DocScan::BadHexAt(i as usize, c),
        }
    }
}

/// The words of one row's pixels.
pub open spec fn row_words(row: Seq<Pixel>) -> Seq<u32> {
    Seq::new(row.len(), |j: int| packed_word(pixel_rgba(row[j])))
}

/// The words of all pixels, row after row.
pub open spec fn rows_words(rows: Seq<Vec<Pixel>>) -> Seq<u32>
    decreases rows.len(),
{
    if rows.len() == 0 {
        Seq::empty()
    } else {
        rows_words(rows.drop_last()) + row_words(rows.last()@)
    }
}

/// Packing a document for the compute shader aborts: the `width` by `height`
/// words it reserves are more than a `Vec` can hold.
pub open spec fn pack_document_aborts(doc: ImageJson) -> bool {
    4 * (doc.width * doc.height) > isize::MAX
}

/// The words of all pixels of a document, row after row, for the compute shader;
/// the first colour that is not `#RRGGBBAA` stops it.
pub fn pack_document(doc: &ImageJson) -> (words: Result<Vec<u32>, DecodeError>)
    requires
        !pack_document_aborts(*doc),
    ensures
        match doc_scan_from(doc.rows@, 0) {
            DocScan::BadHexAt(row, col) => words == Err::<Vec<u32>, DecodeError>(
                DecodeError::InvalidHex { row, col },
            ),
            DocScan::Complete => words matches Ok(ws) && ws@ == rows_words(doc.rows@),
        },
{
    let rows = &doc.rows;
    let mut words: Vec<u32> = Vec::new();
    let mut i: usize = 0;
    while i < rows.len()
        invariant
            rows == doc.rows,
            i <= rows@.len(),
            !pack_document_aborts(*doc),
            doc_scan_from(rows@, 0) == doc_scan_from(rows@, i as int),
            words@ == rows_words(rows@.take(i as int)),
        decreases rows@.len() - i,
    {
        let row = &rows[i];
        let ghost before = words@;
        let mut col: usize = 0;
        while col < row.len()
            invariant
                rows == doc.rows,
                i < rows@.len(),
                row == rows@[i as int],
                col <= row@.len(),
                !pack_document_aborts(*doc),
                doc_scan_from(rows@, 0) == doc_scan_from(rows@, i as int),
                doc_scan_from(rows@, i as int) == match colour_scan_from(row@, 0) {
                    None => doc_scan_from(rows@, i + 1),
                    Some(c) => DocScan::BadHexAt(i, c),
                },
                colour_scan_from(row@, 0) == colour_scan_from(row@, col as int),
                before == rows_words(rows@.take(i as int)),
                words@ == before + row_words(row@).take(col as int),
            decreases row@.len() - col,
        {
            match hex_to_rgba(row[col].hex.as_str()) {
                None => {
                    return Err(DecodeError::InvalidHex { row: i, col });
                },
                Some(rgba) => {
                    words.push(pack_rgba(rgba));
                },
            }
            assert(row_words(row@).take(col + 1) =~= row_words(row@).take(col as int).push(
                packed_word(pixel_rgba(row@[col as int])),
            ));
            col = col + 1;
        }
        assert(row_words(row@).take(col as int) =~= row_words(row@));
        assert(rows@.take(i + 1).drop_last() =~= rows@.take(i as int));
        i = i + 1;
    }
    assert(rows@.take(rows@.len() as int) =~= rows@);
    Ok(words)
}

/// The bytes of `n` pixels from words, lowest byte first, with zeros for the
/// pixels past the last word.
pub open spec fn padded_bytes(words: Seq<u32>, n: int) -> Seq<u8> {
    Seq::new(
        (4 * n) as nat,
        |k: int|
            if k / 4 < words.len() {
                word_channels(words[k / 4])[k % 4]
            } else {
                0u8
            },
    )
}

/// The image of `width` by `height` pixels whose words the compute shader gave
/// back, row after row; pixels without a word are zero.
pub fn image_from_packed(processed: &[u32], width: u32, height: u32) -> (r: Result<
    RgbaRaster,
    DecodeError,
>)
    requires
        rgba_len(width, height) <= isize::MAX,
        processed@.len() <= width * height,
    ensures
        if 4 * width <= usize::MAX {
            &&& r is Ok
            &&& raster_size(r->Ok_0) == (width, height)
            &&& raster_bytes(r->Ok_0) == padded_bytes(processed@, width * height)
        } else {
            r == Err::<RgbaRaster, DecodeError>(DecodeError::BufferTooSmall)
        },
{
    assert(4 * (width * height) == rgba_len(width, height)) by (nonlinear_arith);
    let count = (width as usize) * (height as usize);
    let mut buffer: Vec<u8> = vec![0u8; count * 4];
    let mut idx: usize = 0;
    while idx < processed.len()
        invariant
            idx <= processed@.len(),
            processed@.len() <= count,
            count == width * height,
            4 * count <= isize::MAX,
            buffer@.len() == 4 * count,
            forall|k: int|
                0 <= k < 4 * count ==> #[trigger] buffer@[k] == if k / 4 < idx {
                    word_channels(processed@[k / 4])[k % 4]
                } else {
                    0u8
                },
        decreases processed@.len() - idx,
    {
        let c = unpack_rgba(processed[idx]);
        let offset = idx * 4;
        buffer.set(offset, c[0]);
        buffer.set(offset + 1, c[1]);
        buffer.set(offset + 2, c[2]);
        buffer.set(offset + 3, c[3]);
        idx = idx + 1;
    }
    assert(buffer@ =~= padded_bytes(processed@, width * height));
    match raster_from_raw(width, height, buffer) {
        Some(img) => Ok(img),
        None => Err(DecodeError::BufferTooSmall),
    }
}

} // verus!
