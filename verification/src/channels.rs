use vstd::prelude::*;

use crate::decode::hex_bytes;
use crate::decode::row_rgba_bytes;
use crate::gpu::lemma_unpack_pack;
use crate::gpu::row_words;
use crate::gpu::word_channels;
use crate::schema::is_hex_digit;
use crate::schema::is_hex_digit_for;
use crate::schema::lemma_hex_to_rgba_digits;
use crate::schema::spec_hex_to_rgba;
use crate::schema::Pixel;

verus! {

/// The colour text of a pixel is `#` followed by eight hexadecimal digits.
pub open spec fn spelled_colour(p: Pixel) -> bool {
    &&& hex_bytes(p).len() == 9
    &&& hex_bytes(p)[0] == 0x23
    &&& forall|i: int| 1 <= i < 9 ==> #[trigger] is_hex_digit(hex_bytes(p)[i])
}

/// Reading a row into bytes puts at byte `4 * x + k` channel `k` of the pixel in
/// column `x`: sixteen times the value of digit `2k + 1` of its colour text plus
/// the value of digit `2k + 2`, whichever case the digits are written in.
pub proof fn lemma_decoded_channel_digits(
    row: Seq<Pixel>,
    width: u32,
    x: int,
    k: int,
    d1: int,
    d2: int,
)
    requires
        0 <= x < row.len(),
        x < width,
        0 <= k < 4,
        spelled_colour(row[x]),
        is_hex_digit_for(hex_bytes(row[x])[2 * k + 1], d1),
        is_hex_digit_for(hex_bytes(row[x])[2 * k + 2], d2),
    ensures
        row_rgba_bytes(row, width)[4 * x + k] == 16 * d1 + d2,
{
    lemma_hex_to_rgba_digits(hex_bytes(row[x]));
    assert((4 * x + k) / 4 == x && (4 * x + k) % 4 == k);
}

/// Packing a row for the compute shader gives, for the pixel in column `x`, a word
/// whose channel `k` is sixteen times the value of digit `2k + 1` of its colour
/// text plus the value of digit `2k + 2`, whichever case the digits are written in.
pub proof fn lemma_packed_channel_digits(row: Seq<Pixel>, x: int, k: int, d1: int, d2: int)
    requires
        0 <= x < row.len(),
        0 <= k < 4,
        spelled_colour(row[x]),
        is_hex_digit_for(hex_bytes(row[x])[2 * k + 1], d1),
        is_hex_digit_for(hex_bytes(row[x])[2 * k + 2], d2),
    ensures
        word_channels(row_words(row)[x])[k] == 16 * d1 + d2,
{
    let b = hex_bytes(row[x]);
    lemma_hex_to_rgba_digits(b);
    let c = spec_hex_to_rgba(b).unwrap();
    assert(c.len() == 4);
    lemma_unpack_pack(c);
}

} // verus!
