use img2jx::decode::assemble_image;
use img2jx::decode::decode_buffer_cpu;
use img2jx::decode::decode_row;
use img2jx::decode::validate;
use img2jx::decode::DecodeError;
use img2jx::schema::ImageJson;
use img2jx::schema::Pixel;
use img2jx::SchemaError;

fn px(x: u32, y: u32, hex: &str) -> Pixel {
    Pixel { x, y, hex: hex.into() }
}

fn sample_doc() -> ImageJson {
    ImageJson::new(
        2,
        2,
        vec![
            vec![px(0, 0, "#FF8000FF"), px(1, 0, "#0A141EFF")],
            vec![px(0, 1, "#3C5064FF"), px(1, 1, "#C8D2DCFF")],
        ],
    )
}

#[test]
fn validate_accepts_valid_doc() {
    assert!(validate(&sample_doc()).is_ok());
}

#[test]
fn validate_rejects_row_mismatch() {
    let mut doc = sample_doc();
    doc.rows.pop();
    assert!(matches!(
        validate(&doc),
        Err(SchemaError::RowCountMismatch { .. })
    ));
}

#[test]
fn validate_reports_each_kind_of_error() {
    let mut doc = sample_doc();
    doc.img2jx_version = "2.0".into();
    assert!(matches!(validate(&doc), Err(SchemaError::UnsupportedVersion(v)) if v == "2.0"));

    let mut doc = sample_doc();
    doc.color_space = "srgb".into();
    assert!(matches!(validate(&doc), Err(SchemaError::UnsupportedColorSpace(v)) if v == "srgb"));

    let mut doc = sample_doc();
    doc.channels = "RGB".into();
    assert!(matches!(validate(&doc), Err(SchemaError::UnsupportedChannels(v)) if v == "RGB"));

    let mut doc = sample_doc();
    doc.rows.pop();
    assert!(matches!(
        validate(&doc),
        Err(SchemaError::RowCountMismatch { expected: 2, actual: 1 })
    ));

    let mut doc = sample_doc();
    doc.rows[1].pop();
    assert!(matches!(
        validate(&doc),
        Err(SchemaError::ColumnCountMismatch { row_index: 1, expected: 2, actual: 1 })
    ));

    let mut doc = sample_doc();
    doc.rows[1][0].x = 5;
    assert!(matches!(
        validate(&doc),
        Err(SchemaError::PixelPositionMismatch { row: 1, col: 0, x: 5, y: 1 })
    ));

    let mut doc = sample_doc();
    doc.rows[0][1].hex = "#0A141E".into();
    assert!(matches!(
        validate(&doc),
        Err(SchemaError::InvalidHex { hex, row: 0, col: 1 }) if hex == "#0A141E"
    ));
}

#[test]
fn validate_reports_the_first_failing_check() {
    let mut doc = sample_doc();
    doc.rows[0][1].hex = "nope".into();
    doc.rows[1][0].y = 9;
    assert!(matches!(
        validate(&doc),
        Err(SchemaError::InvalidHex { row: 0, col: 1, .. })
    ));
    // Header checks come before any row.
    doc.channels = "ARGB".into();
    assert!(matches!(validate(&doc), Err(SchemaError::UnsupportedChannels(_))));
}

#[test]
fn validate_reports_non_ascii_colours_as_invalid_hex() {
    let doc = ImageJson::new(1, 1, vec![vec![px(0, 0, "#a\u{e9}00000")]]);
    assert!(matches!(
        validate(&doc),
        Err(SchemaError::InvalidHex { row: 0, col: 0, .. })
    ));
    let mut doc = sample_doc();
    doc.rows[1][1].hex = "#1\u{e9}34567".into();
    assert!(matches!(
        validate(&doc),
        Err(SchemaError::InvalidHex { hex, row: 1, col: 1 }) if hex == "#1\u{e9}34567"
    ));
}

#[test]
fn decode_row_reads_one_row() {
    let doc = sample_doc();
    assert_eq!(decode_row(&doc.rows[0], 2), Ok(vec![255, 128, 0, 255, 10, 20, 30, 255]));
    assert_eq!(
        decode_row(&doc.rows[0], 3),
        Ok(vec![255, 128, 0, 255, 10, 20, 30, 255, 0, 0, 0, 0])
    );
    let bad = vec![px(0, 0, "#00000000"), px(1, 0, "#zz000000")];
    assert_eq!(decode_row(&bad, 2), Err(1));
}

#[test]
fn assemble_image_joins_rows() {
    let (w, h, bytes) = assemble_image(1, 2, vec![vec![1, 2, 3, 4], vec![5, 6, 7, 8]])
        .unwrap()
        .into_parts();
    assert_eq!((w, h), (1, 2));
    assert_eq!(bytes, vec![1, 2, 3, 4, 5, 6, 7, 8]);
    assert!(assemble_image(1, 3, vec![vec![1, 2, 3, 4], vec![5, 6, 7, 8]]).is_none());
}

#[test]
fn decode_buffer_cpu_reads_the_colours() {
    let (w, h, bytes) = decode_buffer_cpu(&sample_doc()).unwrap().into_parts();
    assert_eq!((w, h), (2, 2));
    assert_eq!(
        bytes,
        vec![255, 128, 0, 255, 10, 20, 30, 255, 60, 80, 100, 255, 200, 210, 220, 255]
    );
}

#[test]
fn decode_buffer_cpu_pads_short_rows_with_zeros() {
    let mut doc = sample_doc();
    doc.rows[0].pop();
    let (_, _, bytes) = decode_buffer_cpu(&doc).unwrap().into_parts();
    assert_eq!(
        bytes,
        vec![255, 128, 0, 255, 0, 0, 0, 0, 60, 80, 100, 255, 200, 210, 220, 255]
    );
}

#[test]
fn decode_buffer_cpu_reports_the_first_bad_colour() {
    let mut doc = sample_doc();
    doc.rows[1][1].hex = "#XX".into();
    doc.rows[1][0].hex = "#3C5064F".into();
    assert_eq!(
        decode_buffer_cpu(&doc).err(),
        Some(DecodeError::InvalidHex { row: 1, col: 0 })
    );
}

#[test]
fn decode_buffer_cpu_needs_height_rows() {
    let mut doc = sample_doc();
    doc.rows.pop();
    assert_eq!(decode_buffer_cpu(&doc).err(), Some(DecodeError::BufferTooSmall));
    // Extra rows are fine: the image holds the bytes of every row, and its size
    // says how many of them are its pixels.
    let mut doc = sample_doc();
    doc.height = 1;
    let (w, h, bytes) = decode_buffer_cpu(&doc).unwrap().into_parts();
    assert_eq!((w, h, bytes.len()), (2, 1, 16));
}
