use img2jx::decode::decode_buffer_cpu;
use img2jx::decode::DecodeError;
use img2jx::encode::encode_document;
use img2jx::gpu::image_from_packed;
use img2jx::gpu::pack_document;
use img2jx::gpu::pack_pixels;
use img2jx::gpu::pack_rgba;
use img2jx::gpu::rows_from_packed;
use img2jx::gpu::unpack_rgba;

fn sample_bytes() -> Vec<u8> {
    vec![255, 128, 0, 255, 10, 20, 30, 255, 60, 80, 100, 255, 200, 210, 220, 7]
}

#[test]
fn pack_puts_red_in_the_lowest_byte() {
    assert_eq!(pack_rgba([0x11, 0x22, 0x33, 0x44]), 0x4433_2211);
    assert_eq!(unpack_rgba(0x4433_2211), [0x11, 0x22, 0x33, 0x44]);
    assert_eq!(pack_rgba([255, 255, 255, 255]), u32::MAX);
    assert_eq!(unpack_rgba(0), [0, 0, 0, 0]);
}

#[test]
fn pack_and_unpack_are_inverse() {
    for v in [0u32, 1, 0xff, 0x100, 0xdead_beef, u32::MAX, 0x8000_0001] {
        assert_eq!(pack_rgba(unpack_rgba(v)), v);
    }
    for c in [[1u8, 2, 3, 4], [255, 0, 255, 0], [0, 0, 0, 128]] {
        assert_eq!(unpack_rgba(pack_rgba(c)), c);
    }
}

#[test]
fn gpu_encode_path_agrees_with_cpu() {
    let words = pack_pixels(2, 2, sample_bytes()).unwrap();
    assert_eq!(words.len(), 4);
    assert_eq!(words[0], 0xff00_80ff);
    // The encode shader hands back the words it was given.
    let rows = rows_from_packed(&words, 2, 2);
    let doc = encode_document(2, 2, sample_bytes()).unwrap();
    assert_eq!(rows, doc.rows);
}

#[test]
fn pack_pixels_needs_enough_bytes() {
    assert!(pack_pixels(2, 2, vec![0; 15]).is_none());
}

#[test]
fn gpu_decode_path_agrees_with_cpu() {
    let doc = encode_document(2, 2, sample_bytes()).unwrap();
    let words = pack_document(&doc).unwrap();
    let (w, h, bytes) = image_from_packed(&words, 2, 2).unwrap().into_parts();
    let cpu = decode_buffer_cpu(&doc).unwrap().into_parts();
    assert_eq!((w, h, bytes.clone()), cpu);
    assert_eq!(bytes, sample_bytes());
}

#[test]
fn pack_document_reports_the_first_bad_colour() {
    let mut doc = encode_document(2, 2, sample_bytes()).unwrap();
    doc.rows[1][1].hex = "x".into();
    doc.rows[0][1].hex = "#1\u{e9}34567".into();
    assert_eq!(pack_document(&doc).err(), Some(DecodeError::InvalidHex { row: 0, col: 1 }));
}

#[test]
fn image_from_packed_pads_missing_pixels() {
    let (w, h, bytes) = image_from_packed(&[0x0403_0201], 2, 1).unwrap().into_parts();
    assert_eq!((w, h), (2, 1));
    assert_eq!(bytes, vec![1, 2, 3, 4, 0, 0, 0, 0]);
}
