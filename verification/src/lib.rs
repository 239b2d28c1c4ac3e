use vstd::prelude::*;
use vstd::utf8::encode_utf8;
use vstd::utf8::encode_utf8_decode_utf8;
use vstd::utf8::is_ascii_chars_encode_utf8;
use vstd::utf8::char_u32_cast;


pub mod channels;
pub mod decode;
pub mod encode;
pub mod gpu;
pub mod raster;
pub mod schema;
pub mod laws;
mod text;

verus! {

/// Where the pixel conversions run.
#[derive(Debug, Clone, Copy, PartialEq, Eq, Structural)]
pub enum Backend {
    Cpu,
    Gpu,
}

/// An ASCII byte in lower case: `A` to `Z` become `a` to `z`, other bytes stay.
pub open spec fn ascii_lower(b: u8) -> u8 {
    if 0x41 <= b <= 0x5a {
        (b + 32) as u8
    } else {
        b
    }
}

/// The backend that a name denotes, ignoring ASCII case: `cpu` or `gpu`.
pub open spec fn backend_named(name: Seq<char>) -> Option<Backend> {
    let lower = encode_utf8(name).map_values(|b: u8| ascii_lower(b));
    if lower == seq![0x63u8, 0x70u8, 0x75u8] {
        Some(Backend::Cpu)
    } else if lower == seq![0x67u8, 0x70u8, 0x75u8] {
        Some(Backend::Gpu)
    } else {
        None
    }
}

/// The name spells, letter by letter, the word whose lower-case letters are
/// `lower` and whose upper-case letters are `upper`, each letter in either case.
pub open spec fn spelled_either_case(name: Seq<char>, lower: Seq<char>, upper: Seq<char>) -> bool {
    &&& name.len() == lower.len()
    &&& forall|i: int| 0 <= i < name.len() ==> #[trigger] name[i] == lower[i] || name[i] == upper[i]
}

/// The character is the ASCII letter whose lower-case byte is `l`, in either case.
spec fn letter_either_case(c: char, l: u8) -> bool {
    c as u32 == l || c as u32 == l - 32
}

proof fn lemma_spelled_iff_lowered(name: Seq<char>, l0: u8, l1: u8, l2: u8)
    requires
        0x61 <= l0 <= 0x7a,
        0x61 <= l1 <= 0x7a,
        0x61 <= l2 <= 0x7a,
    ensures
        (name.len() == 3 && letter_either_case(name[0], l0) && letter_either_case(name[1], l1)
            && letter_either_case(name[2], l2)) <==> encode_utf8(name).map_values(
            |b: u8| ascii_lower(b),
        ) == seq![l0, l1, l2],
{
    let bytes = encode_utf8(name);
    let lower = bytes.map_values(|b: u8| ascii_lower(b));
    let l = seq![l0, l1, l2];
    if name.len() == 3 {
        char_u32_cast(name[0], name[0] as u32);
        char_u32_cast(name[1], name[1] as u32);
        char_u32_cast(name[2], name[2] as u32);
    }
    if name.len() == 3 && letter_either_case(name[0], l0) && letter_either_case(name[1], l1)
        && letter_either_case(name[2], l2) {
        assert(name[0] <= '\u{7f}' && name[1] <= '\u{7f}' && name[2] <= '\u{7f}');
        assert(vstd::utf8::is_ascii_chars(name));
        is_ascii_chars_encode_utf8(name);
        assert(bytes[0] == name[0] as u8 && bytes[1] == name[1] as u8 && bytes[2] == name[2] as u8);
        assert(lower =~= l);
    }
    if lower == l {
        assert(lower.len() == 3);
        assert(bytes.len() == 3);
        assert(lower[0] == ascii_lower(bytes[0]) && lower[1] == ascii_lower(bytes[1]) && lower[2]
            == ascii_lower(bytes[2]));
        let cand = seq![bytes[0] as char, bytes[1] as char, bytes[2] as char];
        assert(cand[0] <= '\u{7f}' && cand[1] <= '\u{7f}' && cand[2] <= '\u{7f}');
        assert(vstd::utf8::is_ascii_chars(cand));
        is_ascii_chars_encode_utf8(cand);
        assert(encode_utf8(cand) =~= bytes);
        encode_utf8_decode_utf8(name);
        encode_utf8_decode_utf8(cand);
        assert(name == cand);
    }
}

/// A name denotes the GPU backend exactly when it spells `gpu` with each letter in
/// either ASCII case, the CPU backend exactly when it spells `cpu` so, and no
/// backend otherwise.
pub proof fn lemma_backend_names(name: Seq<char>)
    ensures
        backend_named(name) == Some(Backend::Gpu) <==> spelled_either_case(name, "gpu"@, "GPU"@),
        backend_named(name) == Some(Backend::Cpu) <==> spelled_either_case(name, "cpu"@, "CPU"@),
        backend_named(name) is None <==> !spelled_either_case(name, "gpu"@, "GPU"@)
            && !spelled_either_case(name, "cpu"@, "CPU"@),
{
    reveal_strlit("gpu");
    reveal_strlit("GPU");
    reveal_strlit("cpu");
    reveal_strlit("CPU");
    lemma_spelled_iff_lowered(name, 0x67, 0x70, 0x75);
    lemma_spelled_iff_lowered(name, 0x63, 0x70, 0x75);
    if name.len() == 3 {
        char_u32_cast(name[0], name[0] as u32);
        char_u32_cast(name[1], name[1] as u32);
        char_u32_cast(name[2], name[2] as u32);
        assert(name[0] == 'g' || name[0] == 'G' <==> letter_either_case(name[0], 0x67));
        assert(name[0] == 'c' || name[0] == 'C' <==> letter_either_case(name[0], 0x63));
        assert(name[1] == 'p' || name[1] == 'P' <==> letter_either_case(name[1], 0x70));
        assert(name[2] == 'u' || name[2] == 'U' <==> letter_either_case(name[2], 0x75));
        assert(spelled_either_case(name, "gpu"@, "GPU"@) <==> (name[0] == 'g' || name[0] == 'G')
            && (name[1] == 'p' || name[1] == 'P') && (name[2] == 'u' || name[2] == 'U'));
        assert(spelled_either_case(name, "cpu"@, "CPU"@) <==> (name[0] == 'c' || name[0] == 'C')
            && (name[1] == 'p' || name[1] == 'P') && (name[2] == 'u' || name[2] == 'U'));
    }
}

fn lower_byte(b: u8) -> (l: u8)
    ensures
        l == ascii_lower(b),
{
    if 0x41 <= b && b <= 0x5a {
        b + 32
    } else {
        b
    }
}

impl Backend {
    /// The backend named `s`, in any ASCII case; any other name is refused with a
    /// message that quotes it.
    pub fn parse(s: &str) -> (r: Result<Backend, String>)
        ensures
            match r {
                Ok(b) => backend_named(s@) == Some(b),
                Err(msg) => backend_named(s@) is None && msg@ == "unknown backend '"@ + s@
                    + "'; expected cpu or gpu"@,
            },
    {
        let bytes = s.as_bytes();
        let ghost lower = encode_utf8(s@).map_values(|b: u8| ascii_lower(b));
        if bytes.len() == 3 {
            let (a, b, c) = (lower_byte(bytes[0]), lower_byte(bytes[1]), lower_byte(bytes[2]));
            assert(lower =~= seq![a, b, c]);
            if a == 0x63 && b == 0x70 && c == 0x75 {
                return Ok(Backend::Cpu);
            }
            if a == 0x67 && b == 0x70 && c == 0x75 {
                return Ok(Backend::Gpu);
            }
            assert(lower != seq![0x63u8, 0x70u8, 0x75u8]) by {
                assert(lower[0] == a && lower[1] == b && lower[2] == c);
            }
            assert(lower != seq![0x67u8, 0x70u8, 0x75u8]) by {
                assert(lower[0] == a && lower[1] == b && lower[2] == c);
            }
        } else {
            assert(lower.len() != 3);
        }
        let mut msg = String::new();
        msg.append("unknown backend '");
        msg.append(s);
        msg.append("'; expected cpu or gpu");
        Err(msg)
    }
}

impl std::str::FromStr for Backend {
    type Err = String;

    fn from_str(s: &str) -> (r: Result<Self, Self::Err>)
        ensures
            match r {
                Ok(b) => backend_named(s@) == Some(b),
                Err(msg) => backend_named(s@) is None && msg@ == "unknown backend '"@ + s@
                    + "'; expected cpu or gpu"@,
            },
    {
        Backend::parse(s)
    }
}

/// Why a document does not describe an image that this crate can read.
#[derive(Debug)]
pub enum SchemaError {
    UnsupportedVersion(String),
    UnsupportedColorSpace(String),
    UnsupportedChannels(String),
    RowCountMismatch { expected: u32, actual: usize },
    ColumnCountMismatch { row_index: usize, expected: u32, actual: usize },
    PixelPositionMismatch { row: usize, col: usize, x: u32, y: u32 },
    InvalidHex { hex: String, row: usize, col: usize },
}

} // verus!
