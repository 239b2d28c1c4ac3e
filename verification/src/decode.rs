use vstd::prelude::*;
use vstd::utf8::encode_utf8;

use crate::schema::hex_to_rgba;
use crate::schema::spec_hex_to_rgba;
use crate::schema::ImageJson;
use crate::schema::Pixel;
use crate::raster::raster_bytes;
use crate::raster::raster_from_raw;
use crate::raster::raster_size;
use crate::raster::rgba_len;
use crate::raster::RgbaRaster;
use crate::schema::CHANNELS;
use crate::schema::COLOR_SPACE;
use crate::schema::VERSION;
use crate::text::same_text;
use crate::SchemaError;

verus! {

/// What checking a document against the schema comes to.
pub enum Verdict {
    /// The document describes an image.
    Valid,
    /// The first check that fails, in the order in which they are made.
    Invalid(SchemaError),
}

/// The check of the pixel in row `row`, column `col`: its position, then its colour.
pub open spec fn pixel_verdict(p: Pixel, row: int, col: int) -> Verdict {
    if p.x != col || p.y != row {
        Verdict::Invalid(
            SchemaError::PixelPositionMismatch { row: row as usize, col: col as usize, x: p.x, y: p.y },
        )
    } else if spec_hex_to_rgba(encode_utf8(p.hex@)) is None {
        Verdict::Invalid(SchemaError::InvalidHex { hex: p.hex, row: row as usize, col: col as usize })
    } else {
        Verdict::Valid
    }
}

/// The checks of the pixels of row `row` from column `col` on, left to right.
pub open spec fn row_verdict_from(row: Seq<Pixel>, row_index: int, col: int) -> Verdict
    decreases row.len() - col,
{
    if col < 0 || col >= row.len() {
        Verdict::Valid
    } else {
        match pixel_verdict(row[col], row_index, col) {
            Verdict::Valid => row_verdict_from(row, row_index, col + 1),
            other => other,
        }
    }
}

/// The checks of the rows from row `i` on, top to bottom: each row's length, then
/// its pixels.
pub open spec fn rows_verdict_from(rows: Seq<Vec<Pixel>>, width: u32, i: int) -> Verdict
    decreases rows.len() - i,
{
    if i < 0 || i >= rows.len() {
        Verdict::Valid
    } else if rows[i].len() != width {
        Verdict::Invalid(
            SchemaError::ColumnCountMismatch {
                row_index: i as usize,
                expected: width,
                actual: rows[i].len(),
            },
        )
    } else {
        match row_verdict_from(rows[i]@, i, 0) {
            Verdict::Valid => rows_verdict_from(rows, width, i + 1),
            other => other,
        }
    }
}

/// The schema check of a whole document: the header fields, the number of rows,
/// then the rows.
pub open spec fn doc_verdict(doc: ImageJson) -> Verdict {
    if doc.img2jx_version@ != VERSION@ {
        Verdict::Invalid(SchemaError::UnsupportedVersion(doc.img2jx_version))
    } else if doc.color_space@ != COLOR_SPACE@ {
        Verdict::Invalid(SchemaError::UnsupportedColorSpace(doc.color_space))
    } else if doc.channels@ != CHANNELS@ {
        Verdict::Invalid(SchemaError::UnsupportedChannels(doc.channels))
    } else if doc.rows.len() != doc.height {
        Verdict::Invalid(
            SchemaError::RowCountMismatch { expected: doc.height, actual: doc.rows.len() },
        )
    } else {
        rows_verdict_from(doc.rows@, doc.width, 0)
    }
}

/// Check that a document describes an image: the supported version, colour space
/// and channels, `height` rows of `width` pixels each, every pixel at its own
/// position and every colour readable. The first check that fails gives the error.
pub fn validate(doc: &ImageJson) -> (r: Result<(), SchemaError>)
    ensures
        match r {
            Ok(()) => doc_verdict(*doc) is Valid,
            Err(e) => doc_verdict(*doc) == Verdict::Invalid(e),
        },
{
    if !same_text(doc.img2jx_version.as_str(), VERSION) {
        return Err(SchemaError::UnsupportedVersion(doc.img2jx_version.clone()));
    }
    if !same_text(doc.color_space.as_str(), COLOR_SPACE) {
        return Err(SchemaError::UnsupportedColorSpace(doc.color_space.clone()));
    }
    if !same_text(doc.channels.as_str(), CHANNELS) {
        return Err(SchemaError::UnsupportedChannels(doc.channels.clone()));
    }
    if doc.rows.len() != doc.height as usize {
        return Err(
            SchemaError::RowCountMismatch { expected: doc.height, actual: doc.rows.len() },
        );
    }
    let rows = &doc.rows;
    let width = doc.width;
    let mut row_index: usize = 0;
    while row_index < rows.len()
        invariant
            row_index <= rows@.len(),
            rows@.len() == doc.height,
            rows == doc.rows,
            width == doc.width,
            doc_verdict(*doc) == rows_verdict_from(rows@, width, row_index as int),
        decreases rows@.len() - row_index,
    {
        let row = &rows[row_index];
        if row.len() != width as usize {
            return Err(
                SchemaError::ColumnCountMismatch { row_index, expected: width, actual: row.len() },
            );
        }
        let mut col_index: usize = 0;
        while col_index < row.len()
            invariant
                row_index < rows@.len(),
                rows@.len() == doc.height,
                row == rows@[row_index as int],
                row@.len() == width,
                col_index <= row@.len(),
                rows_verdict_from(rows@, width, row_index as int) == match row_verdict_from(
                    row@,
                    row_index as int,
                    col_index as int,
                ) {
                    Verdict::Valid => rows_verdict_from(rows@, width, row_index + 1),
                    other => other,
                },
                doc_verdict(*doc) == rows_verdict_from(rows@, width, row_index as int),
            decreases row@.len() - col_index,
        {
            let pixel = &row[col_index];
            if pixel.x != col_index as u32 || pixel.y != row_index as u32 {
                return Err(
                    SchemaError::PixelPositionMismatch {
                        row: row_index,
                        col: col_index,
                        x: pixel.x,
                        y: pixel.y,
                    },
                );
            }
            if hex_to_rgba(pixel.hex.as_str()).is_none() {
                return Err(
                    SchemaError::InvalidHex { hex: pixel.hex.clone(), row: row_index, col: col_index },
                );
            }
            col_index = col_index + 1;
        }
        row_index = row_index + 1;
    }
    Ok(())
}


// ---------------------------------------------------------------------------
// Pixels back to RGBA bytes
// ---------------------------------------------------------------------------

/// Why the pixels of a document do not make an image.
#[derive(Debug, Clone, Copy, PartialEq, Eq, Structural)]
pub enum DecodeError {
    /// The colour of the pixel in row `row`, column `col` is not `#RRGGBBAA`.
    InvalidHex { row: usize, col: usize },
    /// The rows hold fewer bytes than `width` by `height` pixels take.
    BufferTooSmall,
}

/// The UTF-8 bytes of a pixel's colour text.
pub open spec fn hex_bytes(p: Pixel) -> Seq<u8> {
    encode_utf8(p.hex@)
}

/// The four channels that a pixel's colour text denotes.
pub open spec fn pixel_rgba(p: Pixel) -> Seq<u8> {
    spec_hex_to_rgba(hex_bytes(p)).unwrap()
}

/// How reading one row of pixels into bytes ends.
pub enum RowScan {
    /// Every colour was read.
    Complete,
    /// The colour in this column is not `#RRGGBBAA`.
    BadHexAt(usize),
    /// A pixel with a readable colour stands beyond the row's `width` columns:
    /// writing its bytes indexes past the row, which aborts.
    Aborts,
}

/// How reading a row ends, from column `col` on: each pixel's colour is read,
/// then its four bytes are written at column `col` of a row of `width` columns.
pub open spec fn scan_row_from(row: Seq<Pixel>, width: u32, col: int) -> RowScan
    decreases row.len() - col,
{
    if col < 0 || col >= row.len() {
        RowScan::Complete
    } else if spec_hex_to_rgba(hex_bytes(row[col])) is None {
        RowScan::BadHexAt(col as usize)
    } else if col >= width {
        RowScan::Aborts
    } else {
        scan_row_from(row, width, col + 1)
    }
}

/// Reading the rows of a document into bytes aborts: a row's bytes are more than
/// a `Vec` can hold, or some row aborts (each row is read on its own, in any
/// order, so one row that aborts is enough).
pub open spec fn decode_aborts(doc: ImageJson) -> bool {
    ||| doc.rows.len() > 0 && 4 * doc.width > isize::MAX
    ||| exists|i: int|
        0 <= i < doc.rows.len() && #[trigger] scan_row_from(doc.rows@[i]@, doc.width, 0) is Aborts
}

/// The first row, from row `i` on, with a colour that is not `#RRGGBBAA`, and
/// the first such column in it.
pub open spec fn first_bad_hex_from(rows: Seq<Vec<Pixel>>, width: u32, i: int) -> Option<
    (usize, usize),
>
    decreases rows.len() - i,
{
    if i < 0 || i >= rows.len() {
        None
    } else {
        match scan_row_from(rows[i]@, width, 0) {
            RowScan::BadHexAt(c) => Some((i as usize, c)),
            _ => first_bad_hex_from(rows, width, i + 1),
        }
    }
}

/// The bytes of one row: four per column of `width` columns, the channels of the
/// pixel in that column, or zeros where the row has no pixel.
pub open spec fn row_rgba_bytes(row: Seq<Pixel>, width: u32) -> Seq<u8> {
    Seq::new(
        (4 * width) as nat,
        |k: int|
            if k / 4 < row.len() {
                pixel_rgba(row[k / 4])[k % 4]
            } else {
                0u8
            },
    )
}

/// The bytes of all rows, one row after the other.
pub open spec fn rows_rgba_bytes(rows: Seq<Vec<Pixel>>, width: u32) -> Seq<u8>
    decreases rows.len(),
{
    if rows.len() == 0 {
        Seq::empty()
    } else {
        rows_rgba_bytes(rows.drop_last(), width) + row_rgba_bytes(rows.last()@, width)
    }
}

pub(crate) proof fn lemma_rows_rgba_bytes_len(rows: Seq<Vec<Pixel>>, width: u32)
    ensures
        rows_rgba_bytes(rows, width).len() == rows.len() * (4 * width),
    decreases rows.len(),
{
    if rows.len() > 0 {
        lemma_rows_rgba_bytes_len(rows.drop_last(), width);
        assert(rows.len() * (4 * width) == (rows.len() - 1) * (4 * width) + 4 * width)
            by (nonlinear_arith);
    }
}

/// The bytes of one row of a document with `width` columns: four per column, the
/// channels of the pixel in that column, zeros where the row has no pixel. The
/// first column whose colour is not `#RRGGBBAA` stops it.
pub fn decode_row(row: &Vec<Pixel>, width: u32) -> (r: Result<Vec<u8>, usize>)
    requires
        4 * width <= isize::MAX,
        !(scan_row_from(row@, width, 0) is Aborts),
    ensures
        match r {
            Ok(bytes) => scan_row_from(row@, width, 0) is Complete && bytes@ == row_rgba_bytes(
                row@,
                width,
            ),
            Err(col) => scan_row_from(row@, width, 0) == RowScan::BadHexAt(col),
        },
{
    let mut bytes: Vec<u8> = vec![0u8; width as usize * 4];
    let mut col: usize = 0;
    while col < row.len()
        invariant
            4 * width <= isize::MAX,
            col <= row@.len(),
            scan_row_from(row@, width, 0) == scan_row_from(row@, width, col as int),
            !(scan_row_from(row@, width, 0) is Aborts),
            bytes@.len() == 4 * width,
            forall|k: int|
                0 <= k < 4 * width ==> #[trigger] bytes@[k] == if k / 4 < col {
                    pixel_rgba(row@[k / 4])[k % 4]
                } else {
                    0u8
                },
        decreases row@.len() - col,
    {
        let pixel = &row[col];
        match hex_to_rgba(pixel.hex.as_str()) {
            None => {
                return Err(col);
            },
            Some(rgba) => {
                let offset = col * 4;
                bytes.set(offset, rgba[0]);
                bytes.set(offset + 1, rgba[1]);
                bytes.set(offset + 2, rgba[2]);
                bytes.set(offset + 3, rgba[3]);
            },
        }
        col = col + 1;
    }
    assert(bytes@ =~= row_rgba_bytes(row@, width));
    Ok(bytes)
}

/// The RGBA image that the pixels of a document describe: `width` by `height`
/// pixels, each row's colours read into four bytes per column.
pub fn decode_buffer_cpu(doc: &ImageJson) -> (r: Result<RgbaRaster, DecodeError>)
    requires
        !decode_aborts(*doc),
    ensures
        match first_bad_hex_from(doc.rows@, doc.width, 0) {
            Some((row, col)) => r == Err::<RgbaRaster, DecodeError>(
                DecodeError::InvalidHex { row, col },
            ),
            None => if 4 * doc.width <= usize::MAX && rgba_len(doc.width, doc.height)
                <= usize::MAX && rgba_len(doc.width, doc.height) <= doc.rows.len() * (4
                * doc.width) {
                &&& r is Ok
                &&& raster_size(r->Ok_0) == (doc.width, doc.height)
                &&& raster_bytes(r->Ok_0) == rows_rgba_bytes(doc.rows@, doc.width)
            } else {
                r == Err::<RgbaRaster, DecodeError>(DecodeError::BufferTooSmall)
            },
        },
{
    let width = doc.width;
    let height = doc.height;
    let rows = &doc.rows;
    let mut decoded: Vec<Vec<u8>> = Vec::new();
    let mut i: usize = 0;
    while i < rows.len()
        invariant
            rows == doc.rows,
            width == doc.width,
            !decode_aborts(*doc),
            i <= rows@.len(),
            decoded@.len() == i,
            forall|j: int| 0 <= j < i ==> #[trigger] decoded@[j]@ == row_rgba_bytes(rows@[j]@, width),
            first_bad_hex_from(rows@, width, 0) == first_bad_hex_from(rows@, width, i as int),
        decreases rows@.len() - i,
    {
        assert(!(scan_row_from(rows@[i as int]@, width, 0) is Aborts));
        match decode_row(&rows[i], width) {
            Ok(bytes) => {
                decoded.push(bytes);
            },
            Err(col) => {
                return Err(DecodeError::InvalidHex { row: i, col });
            },
        }
        i = i + 1;
    }
    proof {
        lemma_concat_decoded_rows(decoded@, rows@, width);
        lemma_rows_rgba_bytes_len(rows@, width);
    }
    match assemble_image(width, height, decoded) {
        Some(img) => Ok(img),
        None => Err(DecodeError::BufferTooSmall),
    }
}

/// The bytes of rows of bytes, one row after the other.
pub open spec fn concat_rows(rows: Seq<Vec<u8>>) -> Seq<u8>
    decreases rows.len(),
{
    if rows.len() == 0 {
        Seq::empty()
    } else {
        concat_rows(rows.drop_last()) + rows.last()@
    }
}

proof fn lemma_concat_decoded_rows(decoded: Seq<Vec<u8>>, rows: Seq<Vec<Pixel>>, width: u32)
    requires
        decoded.len() == rows.len(),
        forall|j: int| 0 <= j < rows.len() ==> #[trigger] decoded[j]@ == row_rgba_bytes(rows[j]@, width),
    ensures
        concat_rows(decoded) == rows_rgba_bytes(rows, width),
    decreases rows.len(),
{
    if rows.len() > 0 {
        lemma_concat_decoded_rows(decoded.drop_last(), rows.drop_last(), width);
    }
}

/// The image of `width` by `height` RGBA pixels whose bytes are the given rows of
/// bytes, one after the other: `None` when they are too few for that size.
pub fn assemble_image(width: u32, height: u32, rows: Vec<Vec<u8>>) -> (img: Option<RgbaRaster>)
    ensures
        img is Some <==> (4 * width <= usize::MAX && rgba_len(width, height) <= usize::MAX
            && rgba_len(width, height) <= concat_rows(rows@).len()),
        img matches Some(i) ==> raster_size(i) == (width, height) && raster_bytes(i)
            == concat_rows(rows@),
{
    let mut buffer: Vec<u8> = Vec::new();
    let mut i: usize = 0;
    while i < rows.len()
        invariant
            i <= rows@.len(),
            buffer@ == concat_rows(rows@.take(i as int)),
        decreases rows@.len() - i,
    {
        let row = &rows[i];
        let ghost before = buffer@;
        let mut k: usize = 0;
        while k < row.len()
            invariant
                i < rows@.len(),
                row == rows@[i as int],
                k <= row@.len(),
                before == concat_rows(rows@.take(i as int)),
                buffer@ == before + row@.take(k as int),
            decreases row@.len() - k,
        {
            buffer.push(row[k]);
            assert(row@.take(k + 1) =~= row@.take(k as int).push(row@[k as int]));
            k = k + 1;
        }
        assert(row@.take(k as int) =~= row@);
        assert(rows@.take(i + 1).drop_last() =~= rows@.take(i as int));
        i = i + 1;
    }
    assert(rows@.take(rows@.len() as int) =~= rows@);
    raster_from_raw(width, height, buffer)
}

} // verus!
