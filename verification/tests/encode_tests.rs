use img2jx::decode::validate;
use img2jx::decode::decode_buffer_cpu;
use img2jx::encode::encode_document;
use img2jx::encode::encode_rows_cpu;
use img2jx::schema::ImageJson;
use img2jx::schema::Pixel;

fn sample_bytes() -> Vec<u8> {
    vec![
        255, 128, 0, 255, 10, 20, 30, 255, 1, 2, 3, 4, //
        60, 80, 100, 255, 200, 210, 220, 255, 0, 0, 0, 0,
    ]
}

#[test]
fn encode_document_writes_positions_and_colours() {
    let doc = encode_document(3, 2, sample_bytes()).unwrap();
    assert_eq!(doc.img2jx_version, "1.0");
    assert_eq!(doc.color_space, "sRGB");
    assert_eq!(doc.channels, "RGBA");
    assert_eq!((doc.width, doc.height), (3, 2));
    let hexes: Vec<Vec<&str>> = doc
        .rows
        .iter()
        .map(|r| r.iter().map(|p| p.hex.as_str()).collect())
        .collect();
    assert_eq!(
        hexes,
        vec![
            vec!["#FF8000FF", "#0A141EFF", "#01020304"],
            vec!["#3C5064FF", "#C8D2DCFF", "#00000000"],
        ]
    );
    for (y, row) in doc.rows.iter().enumerate() {
        for (x, p) in row.iter().enumerate() {
            assert_eq!((p.x, p.y), (x as u32, y as u32));
        }
    }
}

#[test]
fn encode_document_needs_enough_bytes() {
    let mut bytes = sample_bytes();
    bytes.pop();
    assert!(encode_document(3, 2, bytes).is_none());
    assert!(encode_document(0, 0, Vec::new()).is_some());
}

#[test]
fn encoded_document_is_valid_and_decodes_back() {
    let doc = encode_document(3, 2, sample_bytes()).unwrap();
    assert!(validate(&doc).is_ok());
    let (w, h, bytes) = decode_buffer_cpu(&doc).unwrap().into_parts();
    assert_eq!((w, h), (3, 2));
    assert_eq!(bytes, sample_bytes());
}

#[test]
fn decoding_then_encoding_gives_canonical_colours() {
    let doc = ImageJson::new(
        1,
        1,
        vec![vec![Pixel { x: 0, y: 0, hex: "#ff0a0010".into() }]],
    );
    let raster = decode_buffer_cpu(&doc).unwrap();
    let rows = encode_rows_cpu(&raster, 1, 1);
    assert_eq!(rows, vec![vec![Pixel { x: 0, y: 0, hex: "#FF0A0010".into() }]]);
}

#[test]
fn encode_rows_cpu_may_take_a_corner() {
    let doc = encode_document(3, 2, sample_bytes()).unwrap();
    let raster = decode_buffer_cpu(&doc).unwrap();
    let rows = encode_rows_cpu(&raster, 2, 1);
    assert_eq!(
        rows,
        vec![vec![
            Pixel { x: 0, y: 0, hex: "#FF8000FF".into() },
            Pixel { x: 1, y: 0, hex: "#0A141EFF".into() },
        ]]
    );
}

#[test]
fn encode_row_writes_one_row() {
    let raster = img2jx::raster::RgbaRaster::from_raw(3, 2, sample_bytes()).unwrap();
    assert_eq!(raster.dimensions(), (3, 2));
    let row = img2jx::encode::encode_row(&raster, 3, 1);
    assert_eq!(
        row,
        vec![
            Pixel { x: 0, y: 1, hex: "#3C5064FF".into() },
            Pixel { x: 1, y: 1, hex: "#C8D2DCFF".into() },
            Pixel { x: 2, y: 1, hex: "#00000000".into() },
        ]
    );
    assert!(img2jx::raster::RgbaRaster::from_raw(3, 3, sample_bytes()).is_none());
}
