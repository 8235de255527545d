use tama::raster::RgbaImage;

fn gradient(w: u32, h: u32) -> RgbaImage {
    let mut data = Vec::new();
    for y in 0..h {
        for x in 0..w {
            data.extend_from_slice(&[x as u8, y as u8, 7, 255]);
        }
    }
    RgbaImage::from_raw(w, h, data).unwrap()
}

#[test]
fn from_raw_checks_the_length() {
    assert!(RgbaImage::from_raw(2, 2, vec![0; 16]).is_some());
    assert!(RgbaImage::from_raw(2, 2, vec![0; 15]).is_none());
    assert!(RgbaImage::from_raw(2, 2, vec![0; 17]).is_none());
    assert!(RgbaImage::from_raw(0, 0, vec![]).is_some());
}

#[test]
fn new_is_transparent_black() {
    let img = RgbaImage::new(3, 2);
    assert_eq!(img.dimensions(), (3, 2));
    assert_eq!(img.data, vec![0u8; 24]);
}

#[test]
fn get_pixel_reads_row_major() {
    let img = gradient(4, 3);
    assert_eq!(img.get_pixel(2, 1), [2, 1, 7, 255]);
    assert_eq!(img.get_pixel(3, 2), [3, 2, 7, 255]);
}

#[test]
fn crop_copies_the_region() {
    let img = gradient(6, 5);
    let c = img.crop(1, 2, 3, 2);
    assert_eq!(c.dimensions(), (3, 2));
    assert_eq!(c.get_pixel(0, 0), [1, 2, 7, 255]);
    assert_eq!(c.get_pixel(2, 1), [3, 3, 7, 255]);
}

#[test]
fn crop_is_clamped_to_the_image() {
    let img = gradient(6, 5);
    let c = img.crop(4, 3, 10, 10);
    assert_eq!(c.dimensions(), (2, 2));
    assert_eq!(c.get_pixel(1, 1), [5, 4, 7, 255]);
    let outside = img.crop(9, 9, 2, 2);
    assert_eq!(outside.dimensions(), (0, 0));
}

#[test]
fn overlay_of_opaque_replaces_and_of_transparent_keeps() {
    let mut bottom = RgbaImage::new(3, 3);
    let top = RgbaImage::from_raw(2, 1, vec![10, 20, 30, 255, 40, 50, 60, 0]).unwrap();
    bottom.overlay(&top, 1, 2);
    assert_eq!(bottom.get_pixel(1, 2), [10, 20, 30, 255]);
    assert_eq!(bottom.get_pixel(2, 2), [0, 0, 0, 0]);
    assert_eq!(bottom.get_pixel(1, 1), [0, 0, 0, 0]);
}

#[test]
fn overlay_off_the_edge_is_clipped() {
    let mut bottom = RgbaImage::new(2, 2);
    let top = RgbaImage::from_raw(2, 2, vec![9; 16].iter().map(|_| 255u8).collect()).unwrap();
    bottom.overlay(&top, -1, -1);
    assert_eq!(bottom.get_pixel(0, 0), [255, 255, 255, 255]);
    assert_eq!(bottom.get_pixel(1, 0), [0, 0, 0, 0]);
    assert_eq!(bottom.get_pixel(0, 1), [0, 0, 0, 0]);
}
