use wsl_clipboard::dib::decode_dib_pixels;
use wsl_clipboard::png::convert_dib_to_png;

fn header(
    width: i32,
    height: i32,
    bit_count: u16,
    compression: u32,
    clr_used: u32,
) -> Vec<u8> {
    let mut h = Vec::new();
    h.extend_from_slice(&40u32.to_le_bytes());
    h.extend_from_slice(&width.to_le_bytes());
    h.extend_from_slice(&height.to_le_bytes());
    h.extend_from_slice(&1u16.to_le_bytes());
    h.extend_from_slice(&bit_count.to_le_bytes());
    h.extend_from_slice(&compression.to_le_bytes());
    h.extend_from_slice(&[0u8; 20]);
    h[32..36].copy_from_slice(&clr_used.to_le_bytes());
    h
}

/// 2x2 bottom-up 24-bit DIB whose visual grid is:
/// red green / blue white. Rows are stored bottom first, BGR, padded to 8.
fn dib_24_bottom_up() -> Vec<u8> {
    let mut d = header(2, 2, 24, 0, 0);
    // stored row 0 = visual bottom row: blue, white
    d.extend_from_slice(&[255, 0, 0, 255, 255, 255, 0, 0]);
    // stored row 1 = visual top row: red, green
    d.extend_from_slice(&[0, 0, 255, 0, 255, 0, 0, 0]);
    d
}

/// The same visual grid stored top-down (negative height).
fn dib_24_top_down() -> Vec<u8> {
    let mut d = header(2, -2, 24, 0, 0);
    d.extend_from_slice(&[0, 0, 255, 0, 255, 0, 0, 0]);
    d.extend_from_slice(&[255, 0, 0, 255, 255, 255, 0, 0]);
    d
}

/// 2x2 bottom-up 32-bit DIB (BGRA), distinct alpha per pixel.
fn dib_32_bottom_up() -> Vec<u8> {
    let mut d = header(2, 2, 32, 0, 0);
    // stored row 0 = visual bottom: blue a=30, white a=40
    d.extend_from_slice(&[255, 0, 0, 30, 255, 255, 255, 40]);
    // stored row 1 = visual top: red a=10, green a=20
    d.extend_from_slice(&[0, 0, 255, 10, 0, 255, 0, 20]);
    d
}

const GRID_RGB: [u8; 12] = [255, 0, 0, 0, 255, 0, 0, 0, 255, 255, 255, 255];
const GRID_RGBA: [u8; 16] = [
    255, 0, 0, 10, 0, 255, 0, 20, 0, 0, 255, 30, 255, 255, 255, 40,
];

#[test]
fn decode_24bit_bottom_up_reorders_rows_and_channels() {
    let img = decode_dib_pixels(&dib_24_bottom_up()).unwrap();
    assert_eq!(img.width, 2);
    assert_eq!(img.height, 2);
    assert!(!img.has_alpha);
    assert_eq!(img.pixels, GRID_RGB.to_vec());
}

#[test]
fn decode_24bit_top_down_keeps_row_order() {
    let img = decode_dib_pixels(&dib_24_top_down()).unwrap();
    assert_eq!(img.pixels, GRID_RGB.to_vec());
}

#[test]
fn decode_32bit_bottom_up_keeps_alpha() {
    let img = decode_dib_pixels(&dib_32_bottom_up()).unwrap();
    assert!(img.has_alpha);
    assert_eq!(img.pixels, GRID_RGBA.to_vec());
}

#[test]
fn decode_rejects_unsupported_bit_depths() {
    for bits in [0u16, 1, 4, 8, 16, 48] {
        let mut d = header(2, 2, bits, 0, 0);
        d.extend_from_slice(&[0; 4096]);
        assert!(decode_dib_pixels(&d).is_none(), "bit depth {}", bits);
    }
}

#[test]
fn decode_rejects_zero_dimensions() {
    let mut d = header(0, 2, 24, 0, 0);
    d.extend_from_slice(&[0; 64]);
    assert!(decode_dib_pixels(&d).is_none());
    let mut d = header(2, 0, 24, 0, 0);
    d.extend_from_slice(&[0; 64]);
    assert!(decode_dib_pixels(&d).is_none());
}

#[test]
fn decode_rejects_truncated_pixel_data() {
    let mut d = dib_24_bottom_up();
    d.truncate(d.len() - 1);
    assert!(decode_dib_pixels(&d).is_none());
}

#[test]
fn decode_rejects_short_buffer() {
    assert!(decode_dib_pixels(&vec![0u8; 39]).is_none());
    assert!(decode_dib_pixels(&Vec::new()).is_none());
}

#[test]
fn png_round_trip_24bit_reproduces_pixel_grid() {
    // Decoding then re-encoding must reproduce the exact pixel grid:
    // decode the produced PNG with an independent reader and compare
    // component-wise against the reference grid.
    let png = convert_dib_to_png(&dib_24_bottom_up()).unwrap();
    assert_eq!(&png[..8], &[0x89, b'P', b'N', b'G', 0x0D, 0x0A, 0x1A, 0x0A]);
    let img = image::load_from_memory(&png).unwrap();
    assert_eq!(img.width(), 2);
    assert_eq!(img.height(), 2);
    assert_eq!(img.to_rgb8().into_raw(), GRID_RGB.to_vec());
}

#[test]
fn png_round_trip_32bit_reproduces_pixel_grid() {
    let png = convert_dib_to_png(&dib_32_bottom_up()).unwrap();
    let img = image::load_from_memory(&png).unwrap();
    assert_eq!(img.to_rgba8().into_raw(), GRID_RGBA.to_vec());
}

#[test]
fn png_conversion_fails_on_undecodable_input() {
    assert!(convert_dib_to_png(&vec![0u8; 12]).is_none());
}

#[test]
fn decode_skips_row_padding() {
    // Width 3 at 24 bits needs 9 pixel bytes per row but a 12-byte
    // stride; the 3 padding bytes must not leak into the output.
    let mut d = header(3, 1, 24, 0, 0);
    d.extend_from_slice(&[1, 2, 3, 4, 5, 6, 7, 8, 9, 0xEE, 0xEE, 0xEE]);
    let img = decode_dib_pixels(&d).unwrap();
    assert_eq!(img.pixels, vec![3, 2, 1, 6, 5, 4, 9, 8, 7]);
}

#[test]
fn decode_reads_pixels_after_bitfield_masks() {
    // BI_BITFIELDS on the minimal header: 12 mask bytes sit between the
    // header and the single 32-bit pixel.
    let mut d = header(1, 1, 32, 3, 0);
    d.extend_from_slice(&[0, 0, 255, 0, 0, 255, 0, 0, 255, 0, 0, 0]); // masks
    d.extend_from_slice(&[11, 22, 33, 44]); // BGRA pixel
    let img = decode_dib_pixels(&d).unwrap();
    assert!(img.has_alpha);
    assert_eq!(img.pixels, vec![33, 22, 11, 44]);
}

#[test]
fn decode_honors_larger_declared_header() {
    // A 124-byte declared header: the pixel array starts at offset 124
    // and no separate mask region is assumed.
    let mut d = Vec::new();
    d.extend_from_slice(&124u32.to_le_bytes());
    d.extend_from_slice(&1i32.to_le_bytes());
    d.extend_from_slice(&1i32.to_le_bytes());
    d.extend_from_slice(&1u16.to_le_bytes());
    d.extend_from_slice(&32u16.to_le_bytes());
    d.extend_from_slice(&3u32.to_le_bytes());
    d.extend_from_slice(&[0u8; 20]);
    d.extend_from_slice(&[0u8; 84]); // rest of the declared header
    d.extend_from_slice(&[5, 6, 7, 8]); // BGRA pixel
    let img = decode_dib_pixels(&d).unwrap();
    assert_eq!(img.pixels, vec![7, 6, 5, 8]);
}
