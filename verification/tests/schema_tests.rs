use img2jx::schema::hex_to_rgba;
use img2jx::schema::rgba_to_hex;
use img2jx::schema::ImageJson;
use img2jx::schema::Pixel;
use img2jx::schema::CHANNELS;
use img2jx::schema::COLOR_SPACE;
use img2jx::schema::VERSION;

#[test]
fn hex_roundtrip() {
    let hex = rgba_to_hex(255, 128, 0, 255);
    assert_eq!(hex, "#FF8000FF");
    assert_eq!(hex_to_rgba(&hex), Some([255, 128, 0, 255]));
}

#[test]
fn rgba_to_hex_pads_and_uses_upper_case() {
    assert_eq!(rgba_to_hex(0, 0, 0, 0), "#00000000");
    assert_eq!(rgba_to_hex(10, 20, 30, 171), "#0A141EAB");
    assert_eq!(rgba_to_hex(254, 1, 15, 16), "#FE010F10");
}

#[test]
fn hex_roundtrip_over_many_values() {
    for v in 0..=255u8 {
        let c = [v, v.wrapping_mul(7), 255 - v, v / 3];
        let hex = rgba_to_hex(c[0], c[1], c[2], c[3]);
        assert_eq!(hex.len(), 9);
        assert_eq!(hex_to_rgba(&hex), Some(c));
    }
}

#[test]
fn hex_to_rgba_accepts_lower_case() {
    assert_eq!(hex_to_rgba("#ff8000ab"), Some([255, 128, 0, 171]));
    assert_eq!(hex_to_rgba("#Ff8000aB"), Some([255, 128, 0, 171]));
}

#[test]
fn hex_to_rgba_accepts_only_hex_digits() {
    assert_eq!(hex_to_rgba("#+F+F+F+F"), None);
    assert_eq!(hex_to_rgba("#+FFF00FF"), None);
    assert_eq!(hex_to_rgba("#GG000000"), None);
    assert_eq!(hex_to_rgba("#0x000000"), None);
}

#[test]
fn hex_to_rgba_refuses_non_ascii_texts() {
    assert_eq!(hex_to_rgba("#a\u{e9}00000"), None);
    assert_eq!(hex_to_rgba("#1\u{e9}34567"), None);
    assert_eq!(hex_to_rgba("#\u{e9}345678"), None);
    assert_eq!(hex_to_rgba("#00\u{20ac}567"), None);
    assert_eq!(hex_to_rgba("#0102A\u{e9}9"), None);
}

#[test]
fn formatting_a_parsed_colour_gives_the_text_in_upper_case() {
    for text in ["#ff8000ab", "#0a1B2c3D", "#FFFFFFFF", "#00000000"] {
        let c = hex_to_rgba(text).unwrap();
        assert_eq!(rgba_to_hex(c[0], c[1], c[2], c[3]), text.to_ascii_uppercase());
    }
}

#[test]
fn image_json_new_fills_the_header() {
    let rows = vec![vec![Pixel { x: 0, y: 0, hex: "#00000000".to_string() }]];
    let doc = ImageJson::new(1, 1, rows.clone());
    assert_eq!(doc.img2jx_version, VERSION);
    assert_eq!(doc.img2jx_version, "1.0");
    assert_eq!(doc.color_space, COLOR_SPACE);
    assert_eq!(doc.color_space, "sRGB");
    assert_eq!(doc.channels, CHANNELS);
    assert_eq!(doc.channels, "RGBA");
    assert_eq!(doc.width, 1);
    assert_eq!(doc.height, 1);
    assert_eq!(doc.rows, rows);
}
