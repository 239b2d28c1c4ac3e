use vstd::prelude::*;

use crate::decode::decode_aborts;
use crate::decode::doc_verdict;
use crate::decode::first_bad_hex_from;
use crate::decode::lemma_rows_rgba_bytes_len;
use crate::decode::pixel_rgba;
use crate::decode::row_rgba_bytes;
use crate::decode::rows_rgba_bytes;
use crate::decode::scan_row_from;
use crate::encode::hex_at;
use crate::encode::rows_encode;
use crate::gpu::colour_scan_from;
use crate::gpu::doc_scan_from;
use crate::gpu::lemma_unpack_pack;
use crate::gpu::packed_word;
use crate::gpu::packed_words;
use crate::gpu::padded_bytes;
use crate::gpu::rows_words;
use crate::gpu::unpacked_bytes;
use crate::raster::rgba_len;
use crate::schema::lemma_hex_roundtrip;
use crate::schema::rgba_hex_chars;
use crate::decode::hex_bytes;
use crate::decode::row_verdict_from;
use crate::decode::rows_verdict_from;
use crate::schema::spec_hex_to_rgba;
use crate::schema::ImageJson;
use crate::schema::Pixel;
use crate::schema::CHANNELS;
use crate::schema::COLOR_SPACE;
use crate::schema::VERSION;

verus! {

/// A pixel's colour text reads as `#RRGGBBAA`.
pub open spec fn colour_readable(p: Pixel) -> bool {
    spec_hex_to_rgba(hex_bytes(p)) is Some
}

/// `height` rows of `width` pixels, each at its own position, each colour readable.
pub open spec fn grid_rows(rows: Seq<Vec<Pixel>>, width: int, height: int) -> bool {
    &&& rows.len() == height
    &&& forall|y: int| 0 <= y < height ==> #[trigger] rows[y]@.len() == width
    &&& forall|y: int, x: int|
        0 <= y < height && 0 <= x < width ==> {
            let p = #[trigger] rows[y]@[x];
            &&& p.x == x
            &&& p.y == y
            &&& colour_readable(p)
        }
}

/// The header of a document names the supported version, colour space and channels.
pub open spec fn header_supported(doc: ImageJson) -> bool {
    &&& doc.img2jx_version@ == VERSION@
    &&& doc.color_space@ == COLOR_SPACE@
    &&& doc.channels@ == CHANNELS@
}

proof fn lemma_row_valid_iff(row: Seq<Pixel>, y: int, col: int)
    requires
        0 <= col <= row.len(),
    ensures
        row_verdict_from(row, y, col) is Valid <==> forall|x: int|
            col <= x < row.len() ==> {
                let p = #[trigger] row[x];
                &&& p.x == x
                &&& p.y == y
                &&& colour_readable(p)
            },
    decreases row.len() - col,
{
    if col < row.len() {
        lemma_row_valid_iff(row, y, col + 1);
    }
}

proof fn lemma_rows_valid_iff(rows: Seq<Vec<Pixel>>, width: u32, i: int)
    requires
        0 <= i <= rows.len(),
    ensures
        rows_verdict_from(rows, width, i) is Valid <==> forall|y: int|
            i <= y < rows.len() ==> {
                &&& #[trigger] rows[y]@.len() == width
                &&& row_verdict_from(rows[y]@, y, 0) is Valid
            },
    decreases rows.len() - i,
{
    if i < rows.len() {
        lemma_rows_valid_iff(rows, width, i + 1);
    }
}

/// A document passes the schema check exactly when its header is supported and
/// it holds `height` rows of `width` pixels, each pixel at its own position with a
/// readable colour.
pub proof fn lemma_valid_document(doc: ImageJson)
    ensures
        doc_verdict(doc) is Valid <==> header_supported(doc) && grid_rows(
            doc.rows@,
            doc.width as int,
            doc.height as int,
        ),
{
    let rows = doc.rows@;
    lemma_rows_valid_iff(rows, doc.width, 0);
    assert forall|y: int| 0 <= y < rows.len() implies (row_verdict_from(rows[y]@, y, 0) is Valid
        <==> forall|x: int|
        0 <= x < rows[y]@.len() ==> {
            let p = #[trigger] rows[y]@[x];
            &&& p.x == x
            &&& p.y == y
            &&& colour_readable(p)
        }) by {
        lemma_row_valid_iff(rows[y]@, y, 0);
    }
    if header_supported(doc) && grid_rows(rows, doc.width as int, doc.height as int) {
        assert(rows_verdict_from(rows, doc.width, 0) is Valid);
    }
    if doc_verdict(doc) is Valid {
        assert(rows.len() == doc.height);
        assert forall|y: int, x: int|
            0 <= y < doc.height && 0 <= x < doc.width implies {
                let p = #[trigger] rows[y]@[x];
                &&& p.x == x
                &&& p.y == y
                &&& colour_readable(p)
            } by {
            assert(rows[y]@.len() == doc.width);
            assert(row_verdict_from(rows[y]@, y, 0) is Valid);
        }
    }
}

/// Every pixel of an encoded image has a readable colour, which denotes the
/// pixel's four bytes.
proof fn lemma_encoded_pixel(p: Pixel, bytes: Seq<u8>, stride: int, x: int, y: int)
    requires
        p.hex@ == hex_at(bytes, stride, x, y),
    ensures
        colour_readable(p),
        ({
            let i = (y * stride + x) * 4;
            pixel_rgba(p) == seq![bytes[i], bytes[i + 1], bytes[i + 2], bytes[i + 3]]
        }),
{
    let i = (y * stride + x) * 4;
    lemma_hex_roundtrip(bytes[i], bytes[i + 1], bytes[i + 2], bytes[i + 3]);
}

/// The rows of an encoded image form a grid of readable pixels.
proof fn lemma_encoded_grid(rows: Seq<Vec<Pixel>>, bytes: Seq<u8>, width: int, height: int)
    requires
        rows_encode(rows, bytes, width, width, height),
    ensures
        grid_rows(rows, width, height),
{
    assert forall|y: int, x: int| 0 <= y < height && 0 <= x < width implies {
        let p = #[trigger] rows[y]@[x];
        &&& p.x == x
        &&& p.y == y
        &&& colour_readable(p)
    } by {
        lemma_encoded_pixel(rows[y]@[x], bytes, width, x, y);
    }
}

/// Every document that encoding an image gives passes the schema check.
pub proof fn lemma_encoded_document_valid(doc: ImageJson, bytes: Seq<u8>)
    requires
        header_supported(doc),
        rows_encode(doc.rows@, bytes, doc.width as int, doc.width as int, doc.height as int),
    ensures
        doc_verdict(doc) is Valid,
{
    lemma_encoded_grid(doc.rows@, bytes, doc.width as int, doc.height as int);
    lemma_valid_document(doc);
}

proof fn lemma_scan_row_complete(row: Seq<Pixel>, width: u32, col: int)
    requires
        0 <= col <= row.len(),
        row.len() <= width,
        forall|x: int| col <= x < row.len() ==> colour_readable(#[trigger] row[x]),
    ensures
        scan_row_from(row, width, col) is Complete,
    decreases row.len() - col,
{
    if col < row.len() {
        lemma_scan_row_complete(row, width, col + 1);
    }
}

proof fn lemma_no_bad_hex(rows: Seq<Vec<Pixel>>, width: u32, i: int)
    requires
        0 <= i <= rows.len(),
        forall|y: int| i <= y < rows.len() ==> #[trigger] scan_row_from(rows[y]@, width, 0) is Complete,
    ensures
        first_bad_hex_from(rows, width, i) is None,
    decreases rows.len() - i,
{
    if i < rows.len() {
        lemma_no_bad_hex(rows, width, i + 1);
    }
}

/// Reading a grid of readable pixels into bytes neither aborts nor meets a bad
/// colour, where a row's bytes fit in a `Vec`.
proof fn lemma_grid_decodes(doc: ImageJson)
    requires
        grid_rows(doc.rows@, doc.width as int, doc.height as int),
        4 * doc.width <= isize::MAX,
    ensures
        !decode_aborts(doc),
        first_bad_hex_from(doc.rows@, doc.width, 0) is None,
{
    let rows = doc.rows@;
    assert forall|y: int| 0 <= y < rows.len() implies #[trigger] scan_row_from(
        rows[y]@,
        doc.width,
        0,
    ) is Complete by {
        assert forall|x: int| 0 <= x < rows[y]@.len() implies colour_readable(
            #[trigger] rows[y]@[x],
        ) by {
            assert(rows[y]@.len() == doc.width);
        }
        lemma_scan_row_complete(rows[y]@, doc.width, 0);
    }
    lemma_no_bad_hex(rows, doc.width, 0);
}

/// A document that passes the schema check is read into bytes without aborting
/// and without a bad colour, and its rows hold the bytes of `width` by `height`
/// pixels, where those bytes fit in memory.
pub proof fn lemma_valid_document_decodes(doc: ImageJson)
    requires
        doc_verdict(doc) is Valid,
        4 * doc.width <= isize::MAX,
    ensures
        !decode_aborts(doc),
        first_bad_hex_from(doc.rows@, doc.width, 0) is None,
        rgba_len(doc.width, doc.height) == doc.rows.len() * (4 * doc.width),
{
    lemma_valid_document(doc);
    lemma_grid_decodes(doc);
    assert(rgba_len(doc.width, doc.height) == doc.height * (4 * doc.width)) by (nonlinear_arith);
}

proof fn lemma_rows_rgba_bytes_at(rows: Seq<Vec<Pixel>>, width: u32, y: int, k: int)
    requires
        0 <= y < rows.len(),
        0 <= k < 4 * width,
    ensures
        rows_rgba_bytes(rows, width).len() == rows.len() * (4 * width),
        rows_rgba_bytes(rows, width)[y * (4 * width) + k] == row_rgba_bytes(rows[y]@, width)[k],
    decreases rows.len(),
{
    let n = rows.len();
    let w4 = 4 * width;
    let prefix = rows.drop_last();
    if n > 1 {
        if y < n - 1 {
            lemma_rows_rgba_bytes_at(prefix, width, y, k);
        } else {
            lemma_rows_rgba_bytes_at(prefix, width, 0, k);
        }
    }
    lemma_rows_rgba_bytes_len(prefix, width);
    assert(n * w4 == (n - 1) * w4 + w4) by (nonlinear_arith);
    if y < n - 1 {
        assert(y * w4 + k < (n - 1) * w4) by (nonlinear_arith)
            requires
                0 <= y < n - 1,
                0 <= k < w4,
        ;
    } else {
        assert(y * w4 == (n - 1) * w4);
    }
}

/// Encoding an image and reading the document back gives the image's bytes: the
/// read neither aborts nor meets a bad colour, the rows hold exactly the bytes of
/// `width` by `height` pixels, and those are the image's first `4 * width *
/// height` bytes (all of them for an image of exactly that size).
pub proof fn lemma_encode_decode_roundtrip(doc: ImageJson, bytes: Seq<u8>)
    requires
        rows_encode(doc.rows@, bytes, doc.width as int, doc.width as int, doc.height as int),
        rgba_len(doc.width, doc.height) <= bytes.len(),
        4 * doc.width <= isize::MAX,
    ensures
        !decode_aborts(doc),
        first_bad_hex_from(doc.rows@, doc.width, 0) is None,
        rgba_len(doc.width, doc.height) == doc.rows.len() * (4 * doc.width),
        rows_rgba_bytes(doc.rows@, doc.width) == bytes.take(rgba_len(doc.width, doc.height)),
{
    let rows = doc.rows@;
    let w = doc.width as int;
    let h = doc.height as int;
    let w4 = 4 * w;
    lemma_encoded_grid(rows, bytes, w, h);
    lemma_grid_decodes(doc);
    assert(rgba_len(doc.width, doc.height) == h * w4) by (nonlinear_arith)
        requires
            w == doc.width,
            h == doc.height,
            w4 == 4 * w,
    ;
    let decoded = rows_rgba_bytes(rows, doc.width);
    if h > 0 && w > 0 {
        lemma_rows_rgba_bytes_at(rows, doc.width, 0, 0);
        assert forall|j: int| 0 <= j < h * w4 implies decoded[j] == bytes[j] by {
            let y = j / w4;
            let k = j % w4;
            assert(0 <= y < h && 0 <= k < w4 && j == y * w4 + k) by (nonlinear_arith)
                requires
                    0 <= j < h * w4,
                    w4 > 0,
                    y == j / w4,
                    k == j % w4,
            ;
            lemma_rows_rgba_bytes_at(rows, doc.width, y, k);
            let x = k / 4;
            let c = k % 4;
            assert(0 <= x < w && 0 <= c < 4 && (y * w + x) * 4 + c == j) by (nonlinear_arith)
                requires
                    0 <= k < w4,
                    w4 == 4 * w,
                    x == k / 4,
                    c == k % 4,
                    j == y * w4 + k,
            ;
            assert(rows[y]@.len() == w);
            lemma_encoded_pixel(rows[y]@[x], bytes, w, x, y);
            assert(row_rgba_bytes(rows[y]@, doc.width)[k] == pixel_rgba(rows[y]@[x])[c]);
        }
    } else {
        lemma_rows_rgba_bytes_len0(rows, doc.width);
    }
    assert(decoded =~= bytes.take(h * w4));
}

proof fn lemma_rows_rgba_bytes_len0(rows: Seq<Vec<Pixel>>, width: u32)
    requires
        rows.len() == 0 || width == 0,
    ensures
        rows_rgba_bytes(rows, width).len() == 0,
    decreases rows.len(),
{
    if rows.len() > 0 {
        lemma_rows_rgba_bytes_len0(rows.drop_last(), width);
    }
}

proof fn lemma_decoded_channel(doc: ImageJson, y: int, x: int, c: int)
    requires
        grid_rows(doc.rows@, doc.width as int, doc.height as int),
        0 <= y < doc.height,
        0 <= x < doc.width,
        0 <= c < 4,
    ensures
        rows_rgba_bytes(doc.rows@, doc.width)[(y * doc.width + x) * 4 + c] == pixel_rgba(
            doc.rows@[y]@[x],
        )[c],
{
    let w = doc.width as int;
    assert((y * w + x) * 4 + c == y * (4 * w) + (4 * x + c) && 0 <= 4 * x + c < 4 * w)
        by (nonlinear_arith)
        requires
            0 <= x < w,
            0 <= c < 4,
    ;
    lemma_rows_rgba_bytes_at(doc.rows@, doc.width, y, 4 * x + c);
    assert((4 * x + c) / 4 == x && (4 * x + c) % 4 == c);
    assert(doc.rows@[y]@.len() == w);
}

/// Reading a document that passes the schema check into bytes and encoding those
/// bytes again gives back the document's pixels: the same positions, and each
/// colour written in upper case as `#RRGGBBAA` (so the very same texts where the
/// document's colours were written that way).
pub proof fn lemma_decode_encode_roundtrip(doc: ImageJson, rows: Seq<Vec<Pixel>>)
    requires
        doc_verdict(doc) is Valid,
        rows_encode(
            rows,
            rows_rgba_bytes(doc.rows@, doc.width),
            doc.width as int,
            doc.width as int,
            doc.height as int,
        ),
    ensures
        rows.len() == doc.rows.len(),
        forall|y: int| 0 <= y < rows.len() ==> #[trigger] rows[y]@.len() == doc.rows@[y]@.len(),
        forall|y: int, x: int|
            0 <= y < rows.len() && 0 <= x < rows[y]@.len() ==> {
                let p = #[trigger] rows[y]@[x];
                let q = doc.rows@[y]@[x];
                let c = pixel_rgba(q);
                &&& p.x == q.x
                &&& p.y == q.y
                &&& p.hex@ == rgba_hex_chars(c[0], c[1], c[2], c[3])
            },
{
    let w = doc.width as int;
    let h = doc.height as int;
    lemma_valid_document(doc);
    assert forall|y: int, x: int| 0 <= y < h && 0 <= x < w implies {
        let p = #[trigger] rows[y]@[x];
        let q = doc.rows@[y]@[x];
        let c = pixel_rgba(q);
        &&& p.x == q.x
        &&& p.y == q.y
        &&& p.hex@ == rgba_hex_chars(c[0], c[1], c[2], c[3])
    } by {
        lemma_decoded_channel(doc, y, x, 0);
        lemma_decoded_channel(doc, y, x, 1);
        lemma_decoded_channel(doc, y, x, 2);
        lemma_decoded_channel(doc, y, x, 3);
    }
}

// ---------------------------------------------------------------------------
// The compute-shader path against the direct path
// ---------------------------------------------------------------------------

/// Where the compute shader hands back the words it was given, encoding through
/// words gives what encoding the bytes directly gives: rows read from the
/// unpacked words of an image's pixels describe the image's own bytes.
pub proof fn lemma_gpu_encode_agrees(rows: Seq<Vec<Pixel>>, bytes: Seq<u8>, width: u32, height: u32)
    requires
        rows_encode(
            rows,
            unpacked_bytes(packed_words(bytes, width * height)),
            width as int,
            width as int,
            height as int,
        ),
        rgba_len(width, height) <= bytes.len(),
    ensures
        rows_encode(rows, bytes, width as int, width as int, height as int),
{
    let w = width as int;
    let h = height as int;
    let words = packed_words(bytes, w * h);
    let unpacked = unpacked_bytes(words);
    assert forall|y: int, x: int| 0 <= y < h && 0 <= x < w implies hex_at(unpacked, w, x, y)
        == hex_at(bytes, w, x, y) by {
        let idx = y * w + x;
        assert(0 <= idx < w * h && 4 * idx + 4 <= 4 * w * h) by (nonlinear_arith)
            requires
                0 <= x < w,
                0 <= y < h,
                idx == y * w + x,
        ;
        lemma_unpack_pack(bytes.subrange(4 * idx, 4 * idx + 4));
        assert forall|c: int| 0 <= c < 4 implies #[trigger] unpacked[4 * idx + c] == bytes[4 * idx
            + c] by {
            assert((4 * idx + c) / 4 == idx && (4 * idx + c) % 4 == c);
        }
        assert(unpacked[4 * idx] == bytes[4 * idx]);
        assert(unpacked[4 * idx + 1] == bytes[4 * idx + 1]);
        assert(unpacked[4 * idx + 2] == bytes[4 * idx + 2]);
        assert(unpacked[4 * idx + 3] == bytes[4 * idx + 3]);
    }
}

proof fn lemma_colour_scan_complete(row: Seq<Pixel>, col: int)
    requires
        0 <= col <= row.len(),
        forall|x: int| col <= x < row.len() ==> colour_readable(#[trigger] row[x]),
    ensures
        colour_scan_from(row, col) is None,
    decreases row.len() - col,
{
    if col < row.len() {
        lemma_colour_scan_complete(row, col + 1);
    }
}

proof fn lemma_doc_scan_complete(rows: Seq<Vec<Pixel>>, i: int)
    requires
        0 <= i <= rows.len(),
        forall|y: int| i <= y < rows.len() ==> #[trigger] colour_scan_from(rows[y]@, 0) is None,
    ensures
        doc_scan_from(rows, i) is Complete,
    decreases rows.len() - i,
{
    if i < rows.len() {
        lemma_doc_scan_complete(rows, i + 1);
    }
}

proof fn lemma_rows_words_at(rows: Seq<Vec<Pixel>>, width: int, y: int, x: int)
    requires
        0 <= width,
        forall|r: int| 0 <= r < rows.len() ==> #[trigger] rows[r]@.len() == width,
        0 <= y < rows.len(),
        0 <= x < width,
    ensures
        rows_words(rows).len() == rows.len() * width,
        rows_words(rows)[y * width + x] == packed_word(pixel_rgba(rows[y]@[x])),
    decreases rows.len(),
{
    let n = rows.len();
    let prefix = rows.drop_last();
    if n > 1 {
        if y < n - 1 {
            lemma_rows_words_at(prefix, width, y, x);
        } else {
            lemma_rows_words_at(prefix, width, 0, x);
        }
    }
    lemma_rows_words_len(prefix, width);
    assert(n * width == (n - 1) * width + width) by (nonlinear_arith);
    if y < n - 1 {
        assert(y * width + x < (n - 1) * width) by (nonlinear_arith)
            requires
                0 <= y < n - 1,
                0 <= x < width,
        ;
    } else {
        assert(y * width == (n - 1) * width);
    }
}

proof fn lemma_rows_words_len(rows: Seq<Vec<Pixel>>, width: int)
    requires
        0 <= width,
        forall|r: int| 0 <= r < rows.len() ==> #[trigger] rows[r]@.len() == width,
    ensures
        rows_words(rows).len() == rows.len() * width,
    decreases rows.len(),
{
    if rows.len() > 0 {
        lemma_rows_words_len(rows.drop_last(), width);
        assert(rows.len() * width == (rows.len() - 1) * width + width) by (nonlinear_arith);
    }
}

/// Where the compute shader hands back the words it was given, a document that
/// passes the schema check decodes through words to what it decodes to directly:
/// packing its colours meets no bad colour, gives one word per
/// pixel, and those words unpack to the document's bytes.
pub proof fn lemma_gpu_decode_agrees(doc: ImageJson)
    requires
        doc_verdict(doc) is Valid,
    ensures
        doc_scan_from(doc.rows@, 0) is Complete,
        rows_words(doc.rows@).len() == doc.width * doc.height,
        padded_bytes(rows_words(doc.rows@), doc.width * doc.height) == rows_rgba_bytes(
            doc.rows@,
            doc.width,
        ),
{
    let rows = doc.rows@;
    let w = doc.width as int;
    let h = doc.height as int;
    lemma_valid_document(doc);
    assert forall|y: int| 0 <= y < rows.len() implies #[trigger] colour_scan_from(rows[y]@, 0) is None by {
        assert forall|x: int| 0 <= x < rows[y]@.len() implies colour_readable(
            #[trigger] rows[y]@[x],
        ) by {
            assert(rows[y]@.len() == w);
        }
        lemma_colour_scan_complete(rows[y]@, 0);
    }
    lemma_doc_scan_complete(rows, 0);
    lemma_rows_words_len(rows, w);
    assert(h * w == w * h) by (nonlinear_arith);
    lemma_rows_rgba_bytes_len(rows, doc.width);
    let words = rows_words(rows);
    let padded = padded_bytes(words, w * h);
    let decoded = rows_rgba_bytes(rows, doc.width);
    assert(padded.len() == decoded.len()) by {
        assert(4 * (w * h) == h * (4 * w)) by (nonlinear_arith);
    }
    assert forall|k: int| 0 <= k < padded.len() implies padded[k] == decoded[k] by {
        let idx = k / 4;
        let c = k % 4;
        let y = idx / w;
        let x = idx % w;
        assert(w > 0 && 0 <= y < h && 0 <= x < w && idx == y * w + x && k == y * (4 * w) + (4
            * x + c) && 0 <= 4 * x + c < 4 * w && (4 * x + c) / 4 == x && (4 * x + c) % 4 == c)
            by (nonlinear_arith)
            requires
                0 <= k < 4 * (w * h),
                idx == k / 4,
                c == k % 4,
                y == idx / w,
                x == idx % w,
                w >= 0,
                h >= 0,
        ;
        lemma_rows_words_at(rows, w, y, x);
        lemma_rows_rgba_bytes_at(rows, doc.width, y, 4 * x + c);
        let p = rows[y]@[x];
        assert(colour_readable(p));
        lemma_unpack_pack(pixel_rgba(p));
    }
    assert(padded =~= decoded);
}

} // verus!
