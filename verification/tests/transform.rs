use dither_batch::profile::FormatProfile;
use dither_batch::transform::{DitherMatrix, ImageTransformer, PixelBuffer};

fn transformer(mode: &str) -> ImageTransformer {
    ImageTransformer::new(FormatProfile::from_mode(mode), DitherMatrix::standard())
}

#[test]
fn standard_matrix_is_the_bayer_pattern() {
    let m = DitherMatrix::standard();
    assert_eq!(m.thresholds, vec![0u8, 8, 2, 10, 12, 4, 14, 6, 3, 11, 1, 9, 15, 7, 13, 5]);
}

#[test]
fn from_rgba_checks_the_byte_count() {
    let ok = PixelBuffer::from_rgba(2, 2, vec![0u8; 16]).unwrap();
    assert_eq!(ok.width, 2);
    assert_eq!(ok.height, 2);
    assert_eq!(ok.channels, 4);
    assert!(PixelBuffer::from_rgba(2, 2, vec![0u8; 15]).is_err());
    assert!(PixelBuffer::from_rgba(2, 2, vec![0u8; 12]).is_err());
}

#[test]
fn transform_4444_mid_gray() {
    // A 2x2 mid-gray RGBA image at 4 bits: thresholds 0 and 4 round
    // down to level 7 (119), 8 and 12 round up to level 8 (136).
    let src = PixelBuffer::from_rgba(2, 2, vec![128u8; 16]).unwrap();
    let out = transformer("4444").transform(&src);
    assert_eq!(out.channels, 4);
    let mut expected = Vec::new();
    for px in [119u8, 136, 136, 119] {
        expected.extend_from_slice(&[px, px, px, px]);
    }
    assert_eq!(out.data, expected);
}

#[test]
fn transform_565_drops_alpha() {
    // The 565 profile outputs three channels whatever the input alpha.
    let src = PixelBuffer::from_rgba(1, 1, vec![100, 100, 100, 77]).unwrap();
    let out = transformer("565").transform(&src);
    assert_eq!(out.channels, 3);
    assert_eq!(out.width, 1);
    assert_eq!(out.height, 1);
    assert_eq!(out.data, vec![98, 97, 98]);
}

#[test]
fn transform_1555_alpha_threshold() {
    // Alpha 128 is above the threshold and becomes 255; 127 becomes 0.
    let src = PixelBuffer::from_rgba(2, 1, vec![0, 0, 0, 128, 0, 0, 0, 127]).unwrap();
    let out = transformer("1555").transform(&src);
    assert_eq!(out.data[3], 255);
    assert_eq!(out.data[7], 0);
}

#[test]
fn transform_1555_two_by_two_alpha() {
    // A 2x2 image whose four pixels carry alpha 10, 200, 10, 200 at the
    // matrix offsets (0,0), (0,1), (1,0), (1,1): thresholding maps the
    // alpha channel to 0, 255, 0, 255.
    let mut data = Vec::new();
    for a in [10u8, 200, 10, 200] {
        data.extend_from_slice(&[50, 60, 70, a]);
    }
    let src = PixelBuffer::from_rgba(2, 2, data).unwrap();
    let out = transformer("1555").transform(&src);
    assert_eq!(out.channels, 4);
    let alphas: Vec<u8> = (0..4).map(|p| out.data[4 * p + 3]).collect();
    assert_eq!(alphas, vec![0, 255, 0, 255]);
}

#[test]
fn transform_deterministic() {
    let bytes: Vec<u8> = (0..64u32).map(|i| (i * 37 % 256) as u8).collect();
    let src = PixelBuffer::from_rgba(4, 4, bytes).unwrap();
    let t = transformer("1555");
    let a = t.transform(&src);
    let b = t.transform(&src);
    assert_eq!(a.data, b.data);
}

#[test]
fn transform_4444_twice_is_stable() {
    // Every 4-bit level re-expands exactly, so a second pass over the
    // output reproduces it byte for byte.
    let bytes: Vec<u8> = (0..100u32).map(|i| (i * 41 % 256) as u8).collect();
    let src = PixelBuffer::from_rgba(5, 5, bytes).unwrap();
    let t = transformer("4444");
    let once = t.transform(&src);
    let twice = t.transform(&once);
    assert_eq!(twice.data, once.data);
}

#[test]
fn transform_1555_twice_moves_color_bytes() {
    // At 5 bits re-expansion truncates, so the transform is not
    // idempotent in general: a second pass shifts some color bytes.
    let src = PixelBuffer::from_rgba(1, 1, vec![9, 9, 9, 200]).unwrap();
    let t = transformer("1555");
    let once = t.transform(&src);
    assert_eq!(once.data, vec![8, 8, 8, 255]);
    let twice = t.transform(&once);
    assert_eq!(twice.data, vec![0, 0, 0, 255]);
    assert_ne!(twice.data, once.data);
}

#[test]
fn transform_bogus_mode_matches_565() {
    let bytes: Vec<u8> = (0..64u32).map(|i| (i * 53 % 256) as u8).collect();
    let src = PixelBuffer::from_rgba(4, 4, bytes).unwrap();
    let bogus = transformer("bogus").transform(&src);
    let rgb = transformer("565").transform(&src);
    assert_eq!(bogus.channels, rgb.channels);
    assert_eq!(bogus.data, rgb.data);
}
