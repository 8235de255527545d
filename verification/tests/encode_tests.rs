use tama::encode::{image_to_bytes, to_rgb565, TRANSPARENT_RGB565};
use tama::raster::RgbaImage;

#[test]
fn white_packs_to_all_ones() {
    assert_eq!(to_rgb565(255, 255, 255, 255), 0xFFFF);
}

#[test]
fn black_packs_to_zero() {
    assert_eq!(to_rgb565(0, 0, 0, 255), 0x0000);
}

#[test]
fn pure_red_green_blue() {
    assert_eq!(to_rgb565(248, 0, 0, 200), 0xF800);
    assert_eq!(to_rgb565(0, 0, 248, 128), 0x001F);
    assert_eq!(to_rgb565(0, 4, 0, 255), 0x0020);
}

#[test]
fn low_bits_are_dropped() {
    assert_eq!(to_rgb565(0x07, 0x03, 0x07, 255), 0x0000);
    assert_eq!(to_rgb565(0x12, 0x34, 0x56, 255), (0x10 << 8) | (0x34 << 3) | (0x56 >> 3));
}

#[test]
fn mostly_transparent_is_the_sentinel() {
    assert_eq!(to_rgb565(255, 255, 255, 127), TRANSPARENT_RGB565);
    assert_eq!(to_rgb565(0, 0, 0, 0), TRANSPARENT_RGB565);
}

#[test]
fn alpha_128_is_opaque() {
    assert_eq!(to_rgb565(0, 0, 0, 128), 0x0000);
}

#[test]
fn opaque_sentinel_colour_is_nudged() {
    assert_eq!(to_rgb565(0, 252, 0, 255), 0x07E1);
    assert_eq!(to_rgb565(7, 255, 7, 255), 0x07E1);
}

#[test]
fn image_to_bytes_is_little_endian_row_major() {
    // 2 × 2: red, transparent / white, blue
    let data = vec![
        248, 0, 0, 255, 1, 2, 3, 0, //
        255, 255, 255, 255, 0, 0, 248, 255,
    ];
    let img = RgbaImage::from_raw(2, 2, data).unwrap();
    let bytes = image_to_bytes(&img);
    assert_eq!(bytes, vec![0x00, 0xF8, 0xE0, 0x07, 0xFF, 0xFF, 0x1F, 0x00]);
}

#[test]
fn image_to_bytes_of_empty_image_is_empty() {
    let img = RgbaImage::from_raw(0, 3, vec![]).unwrap();
    assert!(image_to_bytes(&img).is_empty());
}
