use raytracer::ppm::{encode_ppm_ascii, encode_ppm_binary};

#[test]
fn ascii_header_and_lines() {
    let pixels = vec![(0u8, 128u8, 255u8), (7u8, 8u8, 9u8)];
    let bytes = encode_ppm_ascii(&pixels, 2, 1);
    assert_eq!(String::from_utf8(bytes).unwrap(), "P3\n2 1\n255\n0 128 255\n7 8 9\n");
}

#[test]
fn ascii_empty_image_is_header_only() {
    let bytes = encode_ppm_ascii(&vec![], 0, 0);
    assert_eq!(String::from_utf8(bytes).unwrap(), "P3\n0 0\n255\n");
}

#[test]
fn ascii_multi_digit_dimensions() {
    let bytes = encode_ppm_ascii(&vec![], 500, 281);
    assert_eq!(String::from_utf8(bytes).unwrap(), "P3\n500 281\n255\n");
}

#[test]
fn ascii_negative_dimension_keeps_sign() {
    let bytes = encode_ppm_ascii(&vec![], -3, 10);
    assert_eq!(String::from_utf8(bytes).unwrap(), "P3\n-3 10\n255\n");
    let bytes = encode_ppm_ascii(&vec![], i32::MIN, i32::MAX);
    assert_eq!(
        String::from_utf8(bytes).unwrap(),
        "P3\n-2147483648 2147483647\n255\n"
    );
}

#[test]
fn binary_header_and_packed_bytes() {
    let pixels = vec![(1u8, 2u8, 3u8), (255u8, 0u8, 10u8)];
    let bytes = encode_ppm_binary(&pixels, 1, 2);
    let mut expected = b"P6\n1 2\n255\n".to_vec();
    expected.extend_from_slice(&[1, 2, 3, 255, 0, 10]);
    assert_eq!(bytes, expected);
}

#[test]
fn binary_three_bytes_per_pixel() {
    let pixels: Vec<(u8, u8, u8)> = (0..20u8).map(|i| (i, i + 1, i + 2)).collect();
    let bytes = encode_ppm_binary(&pixels, 5, 4);
    let head = b"P6\n5 4\n255\n".len();
    assert_eq!(bytes.len(), head + 60);
    for (k, p) in pixels.iter().enumerate() {
        assert_eq!(bytes[head + 3 * k], p.0);
        assert_eq!(bytes[head + 3 * k + 1], p.1);
        assert_eq!(bytes[head + 3 * k + 2], p.2);
    }
}
