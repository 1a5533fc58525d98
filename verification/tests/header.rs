use wsl_clipboard::dib::read_bitmap_info;

fn sample_header() -> Vec<u8> {
    let mut h = Vec::new();
    h.extend_from_slice(&40u32.to_le_bytes()); // bi_size
    h.extend_from_slice(&7i32.to_le_bytes()); // bi_width
    h.extend_from_slice(&(-3i32).to_le_bytes()); // bi_height (top-down)
    h.extend_from_slice(&1u16.to_le_bytes()); // bi_planes
    h.extend_from_slice(&24u16.to_le_bytes()); // bi_bit_count
    h.extend_from_slice(&3u32.to_le_bytes()); // bi_compression
    h.extend_from_slice(&0u32.to_le_bytes()); // bi_size_image
    h.extend_from_slice(&2835i32.to_le_bytes()); // bi_x_pels_per_meter
    h.extend_from_slice(&(-2835i32).to_le_bytes()); // bi_y_pels_per_meter
    h.extend_from_slice(&16u32.to_le_bytes()); // bi_clr_used
    h.extend_from_slice(&2u32.to_le_bytes()); // bi_clr_important
    h
}

#[test]
fn parses_all_fields_little_endian() {
    let h = read_bitmap_info(&sample_header()).unwrap();
    assert_eq!(h.bi_size, 40);
    assert_eq!(h.bi_width, 7);
    assert_eq!(h.bi_height, -3);
    assert_eq!(h.bi_planes, 1);
    assert_eq!(h.bi_bit_count, 24);
    assert_eq!(h.bi_compression, 3);
    assert_eq!(h.bi_size_image, 0);
    assert_eq!(h.bi_x_pels_per_meter, 2835);
    assert_eq!(h.bi_y_pels_per_meter, -2835);
    assert_eq!(h.bi_clr_used, 16);
    assert_eq!(h.bi_clr_important, 2);
}

#[test]
fn parses_extreme_values() {
    let mut data = vec![0xFFu8; 40];
    let h = read_bitmap_info(&data).unwrap();
    assert_eq!(h.bi_size, u32::MAX);
    assert_eq!(h.bi_width, -1);
    assert_eq!(h.bi_height, -1);

    data[4..8].copy_from_slice(&i32::MIN.to_le_bytes());
    let h = read_bitmap_info(&data).unwrap();
    assert_eq!(h.bi_width, i32::MIN);
}

#[test]
fn rejects_every_truncated_buffer() {
    // Every length from 0 to one byte short of the header must fail,
    // and must do so without reading past the buffer.
    let full = sample_header();
    for len in 0..40 {
        let truncated = full[..len].to_vec();
        assert!(read_bitmap_info(&truncated).is_none(), "length {}", len);
    }
}

#[test]
fn ignores_bytes_past_the_header() {
    let mut data = sample_header();
    data.extend_from_slice(&[0xAB; 64]);
    let h = read_bitmap_info(&data).unwrap();
    assert_eq!(h.bi_size, 40);
    assert_eq!(h.bi_clr_important, 2);
}
