use vstd::prelude::*;
use vstd::utf8::encode_utf8;
use vstd::utf8::is_ascii_chars_encode_utf8;

use crate::text::push_char;

verus! {

/// The schema version this crate writes and accepts.
pub const VERSION: &'static str = "1.0";

/// The only colour space a document may name.
pub const COLOR_SPACE: &'static str = "sRGB";

/// The only channel layout a document may name.
pub const CHANNELS: &'static str = "RGBA";

/// One pixel of a document: its column `x`, its row `y` and its colour `#RRGGBBAA`.
#[derive(Debug, Clone, PartialEq, Eq)]
pub struct Pixel {
    pub x: u32,
    pub y: u32,
    pub hex: String,
}

/// A whole image as a document: header fields and the pixels row by row.
#[derive(Debug, Clone, PartialEq, Eq)]
pub struct ImageJson {
    pub img2jx_version: String,
    pub width: u32,
    pub height: u32,
    pub color_space: String,
    pub channels: String,
    pub rows: Vec<Vec<Pixel>>,
}

impl ImageJson {
    /// A document of the current version, in sRGB with RGBA channels, holding `rows`.
    pub fn new(width: u32, height: u32, rows: Vec<Vec<Pixel>>) -> (doc: Self)
        ensures
            doc.img2jx_version@ == VERSION@,
            doc.width == width,
            doc.height == height,
            doc.color_space@ == COLOR_SPACE@,
            doc.channels@ == CHANNELS@,
            doc.rows == rows,
    {
        Self {
            img2jx_version: VERSION.to_string(),
            width,
            height,
            color_space: COLOR_SPACE.to_string(),
            channels: CHANNELS.to_string(),
            rows,
        }
    }
}

// ---------------------------------------------------------------------------
// `#RRGGBBAA` colour notation
// ---------------------------------------------------------------------------

/// The upper-case hexadecimal digit for a value below 16.
pub open spec fn hex_digit_char(n: u8) -> char
    recommends
        n < 16,
{
    if n < 10 {
        (n + 48) as char
    } else {
        (n + 55) as char
    }
}

/// A byte written as two upper-case hexadecimal digits, high digit first.
pub open spec fn byte_hex_chars(v: u8) -> Seq<char> {
    seq![hex_digit_char(v / 16), hex_digit_char(v % 16)]
}

/// The text `#RRGGBBAA` for the four channels of a pixel.
pub open spec fn rgba_hex_chars(r: u8, g: u8, b: u8, a: u8) -> Seq<char> {
    seq!['#'] + byte_hex_chars(r) + byte_hex_chars(g) + byte_hex_chars(b) + byte_hex_chars(a)
}

/// The value of one hexadecimal digit byte, of either case.
pub open spec fn hex_digit_value(c: u8) -> Option<u8> {
    if 0x30 <= c <= 0x39 {
        Some((c - 0x30) as u8)
    } else if 0x41 <= c <= 0x46 {
        Some((c - 0x41 + 10) as u8)
    } else if 0x61 <= c <= 0x66 {
        Some((c - 0x61 + 10) as u8)
    } else {
        None
    }
}

/// The value of two hexadecimal digits, high digit first.
pub open spec fn hex_pair_value(lead: u8, next: u8) -> Option<u8> {
    match (hex_digit_value(lead), hex_digit_value(next)) {
        (Some(h), Some(l)) => Some((h * 16 + l) as u8),
        _ => None,
    }
}

/// The channels that a UTF-8 text `bytes` denotes in the `#RRGGBBAA` notation,
/// if it is one: a `#`, then eight ASCII hexadecimal digits of either case, read
/// two at a time.
pub open spec fn spec_hex_to_rgba(bytes: Seq<u8>) -> Option<Seq<u8>> {
    if bytes.len() == 9 && bytes[0] == 0x23 {
        match (
            hex_pair_value(bytes[1], bytes[2]),
            hex_pair_value(bytes[3], bytes[4]),
            hex_pair_value(bytes[5], bytes[6]),
            hex_pair_value(bytes[7], bytes[8]),
        ) {
            (Some(r), Some(g), Some(b), Some(a)) => Some(seq![r, g, b, a]),
            _ => None,
        }
    } else {
        None
    }
}

fn digit_value(c: u8) -> (r: Option<u8>)
    ensures
        r == hex_digit_value(c),
{
    if 0x30 <= c && c <= 0x39 {
        Some(c - 0x30)
    } else if 0x41 <= c && c <= 0x46 {
        Some(c - 0x41 + 10)
    } else if 0x61 <= c && c <= 0x66 {
        Some(c - 0x61 + 10)
    } else {
        None
    }
}

fn pair_value(lead: u8, next: u8) -> (r: Option<u8>)
    ensures
        r == hex_pair_value(lead, next),
{
    match (digit_value(lead), digit_value(next)) {
        (Some(h), Some(l)) => Some(h * 16 + l),
        _ => None,
    }
}

fn hex_digit(n: u8) -> (c: char)
    requires
        n < 16,
    ensures
        c == hex_digit_char(n),
{
    if n < 10 {
        (n + 48) as char
    } else {
        (n + 55) as char
    }
}

fn push_byte_hex(s: &mut String, v: u8)
    ensures
        final(s)@ == old(s)@ + byte_hex_chars(v),
{
    push_char(s, hex_digit(v / 16));
    push_char(s, hex_digit(v % 16));
}

/// Format RGBA bytes as `#RRGGBBAA`.
pub fn rgba_to_hex(r: u8, g: u8, b: u8, a: u8) -> (hex: String)
    ensures
        hex@ == rgba_hex_chars(r, g, b, a),
{
    let mut s = String::new();
    push_char(&mut s, '#');
    push_byte_hex(&mut s, r);
    push_byte_hex(&mut s, g);
    push_byte_hex(&mut s, b);
    push_byte_hex(&mut s, a);
    s
}

/// Parse `#RRGGBBAA` into RGBA bytes: `None` for any text that is not `#`
/// followed by eight ASCII hexadecimal digits.
pub fn hex_to_rgba(hex: &str) -> (rgba: Option<[u8; 4]>)
    ensures
        match rgba {
            Some(c) => spec_hex_to_rgba(encode_utf8(hex@)) == Some(c@),
            None => spec_hex_to_rgba(encode_utf8(hex@)) is None,
        },
{
    let bytes = hex.as_bytes();
    if bytes.len() != 9 || bytes[0] != 0x23 {
        return None;
    }
    let r = pair_value(bytes[1], bytes[2])?;
    let g = pair_value(bytes[3], bytes[4])?;
    let b = pair_value(bytes[5], bytes[6])?;
    let a = pair_value(bytes[7], bytes[8])?;
    let rgba = [r, g, b, a];
    assert(rgba@ =~= seq![r, g, b, a]);
    Some(rgba)
}

/// Reading back what [`rgba_to_hex`] writes gives the four channels again.
pub proof fn lemma_hex_roundtrip(r: u8, g: u8, b: u8, a: u8)
    ensures
        spec_hex_to_rgba(encode_utf8(rgba_hex_chars(r, g, b, a))) == Some(seq![r, g, b, a]),
{
    let chars = rgba_hex_chars(r, g, b, a);
    assert forall|i: int| 0 <= i < chars.len() implies '\0' <= #[trigger] chars[i] <= '\u{7f}' by {
    }
    is_ascii_chars_encode_utf8(chars);
    let bytes = encode_utf8(chars);
    assert(bytes.len() == 9);
}

/// An ASCII byte in upper case: `a` to `z` become `A` to `Z`, other bytes stay.
pub open spec fn ascii_upper(b: u8) -> u8 {
    if 0x61 <= b <= 0x7a {
        (b - 32) as u8
    } else {
        b
    }
}

proof fn lemma_digit_char(c: u8)
    requires
        hex_digit_value(c) is Some,
    ensures
        hex_digit_char(hex_digit_value(c).unwrap()) as u8 == ascii_upper(c),
{
}

proof fn lemma_pair_chars(lead: u8, next: u8)
    requires
        hex_pair_value(lead, next) is Some,
    ensures
        byte_hex_chars(hex_pair_value(lead, next).unwrap())[0] as u8 == ascii_upper(lead),
        byte_hex_chars(hex_pair_value(lead, next).unwrap())[1] as u8 == ascii_upper(next),
{
    let h = hex_digit_value(lead).unwrap();
    let l = hex_digit_value(next).unwrap();
    let v = hex_pair_value(lead, next).unwrap();
    assert(v / 16 == h && v % 16 == l);
    lemma_digit_char(lead);
    lemma_digit_char(next);
}

/// Every text that [`hex_to_rgba`] reads is `#RRGGBBAA`: writing the channels it
/// gives back with [`rgba_to_hex`] reproduces the text, up to the case of its
/// letters.
pub proof fn lemma_parsed_hex_formats_back(bytes: Seq<u8>)
    requires
        spec_hex_to_rgba(bytes) is Some,
    ensures
        ({
            let c = spec_hex_to_rgba(bytes).unwrap();
            encode_utf8(rgba_hex_chars(c[0], c[1], c[2], c[3])) == bytes.map_values(
                |b: u8| ascii_upper(b),
            )
        }),
{
    let c = spec_hex_to_rgba(bytes).unwrap();
    let chars = rgba_hex_chars(c[0], c[1], c[2], c[3]);
    assert forall|i: int| 0 <= i < chars.len() implies '\0' <= #[trigger] chars[i] <= '\u{7f}' by {
    }
    is_ascii_chars_encode_utf8(chars);
    lemma_pair_chars(bytes[1], bytes[2]);
    lemma_pair_chars(bytes[3], bytes[4]);
    lemma_pair_chars(bytes[5], bytes[6]);
    lemma_pair_chars(bytes[7], bytes[8]);
    let enc = encode_utf8(chars);
    let up = bytes.map_values(|b: u8| ascii_upper(b));
    assert(enc.len() == 9);
    assert forall|i: int| 0 <= i < 9 implies enc[i] == up[i] by {
        assert(enc[i] == chars[i] as u8);
    }
    assert(enc =~= up);
}


// ---------------------------------------------------------------------------
// The digits of the notation
// ---------------------------------------------------------------------------

/// The sixteen hexadecimal digits in upper case, in order of value.
pub open spec fn upper_hex_digits() -> Seq<char> {
    "0123456789ABCDEF"@
}

/// The sixteen hexadecimal digits in lower case, in order of value.
pub open spec fn lower_hex_digits() -> Seq<char> {
    "0123456789abcdef"@
}

/// The byte is the hexadecimal digit of value `d`, in either case.
pub open spec fn is_hex_digit_for(b: u8, d: int) -> bool {
    &&& 0 <= d < 16
    &&& (b == upper_hex_digits()[d] as u8 || b == lower_hex_digits()[d] as u8)
}

/// The byte is a hexadecimal digit, of either case.
pub open spec fn is_hex_digit(b: u8) -> bool {
    exists|d: int| #[trigger] is_hex_digit_for(b, d)
}

proof fn lemma_digit_tables()
    ensures
        upper_hex_digits().len() == 16,
        lower_hex_digits().len() == 16,
        forall|d: int|
            0 <= d < 16 ==> #[trigger] upper_hex_digits()[d] == (if d < 10 {
                (48 + d) as char
            } else {
                (55 + d) as char
            }),
        forall|d: int|
            0 <= d < 16 ==> #[trigger] lower_hex_digits()[d] == (if d < 10 {
                (48 + d) as char
            } else {
                (87 + d) as char
            }),
{
    reveal_strlit("0123456789ABCDEF");
    reveal_strlit("0123456789abcdef");
    assert(upper_hex_digits() =~= seq![
        '0', '1', '2', '3', '4', '5', '6', '7', '8', '9', 'A', 'B', 'C', 'D', 'E', 'F',
    ]);
    assert(lower_hex_digits() =~= seq![
        '0', '1', '2', '3', '4', '5', '6', '7', '8', '9', 'a', 'b', 'c', 'd', 'e', 'f',
    ]);
}

/// A byte is a hexadecimal digit of value `d`, of either case, exactly when the
/// notation reads it as `d`.
pub proof fn lemma_hex_digit_value(b: u8)
    ensures
        forall|d: int| #[trigger] is_hex_digit_for(b, d) <==> hex_digit_value(b) == Some(d as u8) && 0 <= d < 16,
{
    lemma_digit_tables();
}

/// `rgba_to_hex` writes `#`, then each of red, green, blue and alpha as its two
/// upper-case hexadecimal digits, the digit of the sixteens first.
pub proof fn lemma_rgba_hex_digits(r: u8, g: u8, b: u8, a: u8)
    ensures
        ({
            let u = upper_hex_digits();
            rgba_hex_chars(r, g, b, a) == seq![
                '#',
                u[r as int / 16],
                u[r as int % 16],
                u[g as int / 16],
                u[g as int % 16],
                u[b as int / 16],
                u[b as int % 16],
                u[a as int / 16],
                u[a as int % 16],
            ]
        }),
{
    lemma_digit_tables();
    let u = upper_hex_digits();
    assert(rgba_hex_chars(r, g, b, a) =~= seq![
        '#',
        u[r as int / 16],
        u[r as int % 16],
        u[g as int / 16],
        u[g as int % 16],
        u[b as int / 16],
        u[b as int % 16],
        u[a as int / 16],
        u[a as int % 16],
    ]);
}

/// A text reads as a colour exactly when it is `#` followed by eight hexadecimal
/// digits of either case; channel `k` is then sixteen times the value of digit
/// `2k + 1` plus the value of digit `2k + 2` (counting the `#` as byte 0).
pub proof fn lemma_hex_to_rgba_digits(bytes: Seq<u8>)
    ensures
        spec_hex_to_rgba(bytes) is Some <==> {
            &&& bytes.len() == 9
            &&& bytes[0] == 0x23
            &&& forall|i: int| 1 <= i < 9 ==> #[trigger] is_hex_digit(bytes[i])
        },
        forall|k: int, d1: int, d2: int|
            0 <= k < 4 && spec_hex_to_rgba(bytes) is Some && #[trigger] is_hex_digit_for(
                bytes[2 * k + 1],
                d1,
            ) && #[trigger] is_hex_digit_for(bytes[2 * k + 2], d2) ==> spec_hex_to_rgba(
                bytes,
            ).unwrap()[k] == 16 * d1 + d2,
{
    if bytes.len() == 9 {
        lemma_hex_digit_value(bytes[1]);
        lemma_hex_digit_value(bytes[2]);
        lemma_hex_digit_value(bytes[3]);
        lemma_hex_digit_value(bytes[4]);
        lemma_hex_digit_value(bytes[5]);
        lemma_hex_digit_value(bytes[6]);
        lemma_hex_digit_value(bytes[7]);
        lemma_hex_digit_value(bytes[8]);
        if spec_hex_to_rgba(bytes) is Some {
            assert forall|i: int| 1 <= i < 9 implies #[trigger] is_hex_digit(bytes[i]) by {
                lemma_hex_digit_value(bytes[i]);
                let v = hex_digit_value(bytes[i]).unwrap();
                assert(is_hex_digit_for(bytes[i], v as int));
            }
        }
        if bytes[0] == 0x23 && forall|i: int| 1 <= i < 9 ==> #[trigger] is_hex_digit(bytes[i]) {
            assert forall|i: int| 1 <= i < 9 implies hex_digit_value(bytes[i]) is Some by {
                assert(is_hex_digit(bytes[i]));
                lemma_hex_digit_value(bytes[i]);
                let d = choose|d: int| #[trigger] is_hex_digit_for(bytes[i], d);
                assert(is_hex_digit_for(bytes[i], d));
            }
        }
    }
}

} // verus!
