use tama::cat_sheet::anim_frames;
use tama::encode::to_rgb565;
use tama::props::{prop_cell, trim_transparent};
use tama::raster::RgbaImage;
use tama::themes::{wall_from_theme, wall_tile_indices};

fn with_opaque(w: u32, h: u32, opaque: &[(u32, u32)]) -> RgbaImage {
    let mut data = vec![0u8; (w * h * 4) as usize];
    for &(x, y) in opaque {
        let i = ((y * w + x) * 4) as usize;
        data[i] = x as u8;
        data[i + 1] = y as u8;
        data[i + 2] = 1;
        data[i + 3] = 200;
    }
    RgbaImage::from_raw(w, h, data).unwrap()
}

#[test]
fn trim_keeps_the_opaque_bounding_box() {
    let img = with_opaque(6, 6, &[(1, 4), (3, 2)]);
    let t = trim_transparent(&img);
    assert_eq!(t.dimensions(), (3, 3));
    assert_eq!(t.get_pixel(0, 2), [1, 4, 1, 200]);
    assert_eq!(t.get_pixel(2, 0), [3, 2, 1, 200]);
    assert_eq!(t.get_pixel(0, 0), [0, 0, 0, 0]);
}

#[test]
fn trim_ignores_faint_pixels() {
    let mut img = with_opaque(4, 4, &[(2, 2)]);
    // alpha 127 at (0, 0): not opaque
    img.data[3] = 127;
    let t = trim_transparent(&img);
    assert_eq!(t.dimensions(), (1, 1));
    assert_eq!(t.get_pixel(0, 0), [2, 2, 1, 200]);
}

#[test]
fn trim_of_fully_transparent_is_one_clear_pixel() {
    let img = with_opaque(5, 3, &[]);
    let t = trim_transparent(&img);
    assert_eq!(t.dimensions(), (1, 1));
    assert_eq!(t.data, vec![0, 0, 0, 0]);
}

#[test]
fn prop_cell_crops_then_trims() {
    // a 128 × 64 sheet: two cells side by side; cell (1, 0) has opaque pixels at (70, 10) and (72, 11)
    let img = with_opaque(128, 64, &[(70, 10), (72, 11), (5, 5)]);
    let p = prop_cell(&img, 1, 0);
    assert_eq!(p.dimensions(), (3, 2));
    assert_eq!(p.get_pixel(0, 0), [70, 10, 1, 200]);
    assert_eq!(p.get_pixel(2, 1), [72, 11, 1, 200]);
}

#[test]
fn wall_stacks_tiles_two_two_four_five() {
    assert_eq!(wall_tile_indices(), vec![2, 2, 4, 5]);
    // a 96 × 16 theme sheet where tile i is filled with colour (i, row, 0, 255)
    let mut data = Vec::new();
    for y in 0..16u32 {
        for x in 0..96u32 {
            data.extend_from_slice(&[(x / 16) as u8, y as u8, 0, 255]);
        }
    }
    let theme = RgbaImage::from_raw(96, 16, data).unwrap();
    let wall = wall_from_theme(&theme);
    assert_eq!(wall.dimensions(), (16, 64));
    assert_eq!(wall.get_pixel(3, 0), [2, 0, 0, 255]);
    assert_eq!(wall.get_pixel(3, 20), [2, 4, 0, 255]);
    assert_eq!(wall.get_pixel(15, 40), [4, 8, 0, 255]);
    assert_eq!(wall.get_pixel(0, 63), [5, 15, 0, 255]);
}

#[test]
fn wall_from_a_small_sheet_stays_clear_where_tiles_are_missing() {
    // only 48 pixels wide: tiles 4 and 5 are missing
    let theme = RgbaImage::from_raw(48, 16, vec![255; 48 * 16 * 4]).unwrap();
    let wall = wall_from_theme(&theme);
    assert_eq!(wall.get_pixel(0, 0), [255, 255, 255, 255]);
    assert_eq!(wall.get_pixel(0, 40), [0, 0, 0, 0]);
    assert_eq!(wall.get_pixel(0, 60), [0, 0, 0, 0]);
}

#[test]
fn anim_frames_cuts_cells_along_a_row() {
    // a 64 × 64 sheet, two rows of two cells
    let mut data = Vec::new();
    for y in 0..64u32 {
        for x in 0..64u32 {
            data.extend_from_slice(&[(x * 4) as u8, (y * 4) as u8, 0, if x == 33 && y == 40 { 0 } else { 255 }]);
        }
    }
    let img = RgbaImage::from_raw(64, 64, data).unwrap();
    let frames = anim_frames(&img, 1, 2);
    assert_eq!(frames.len(), 2);
    assert_eq!(frames[0].len(), 1024);
    assert_eq!(frames[0][0], to_rgb565(0, 128, 0, 255));
    assert_eq!(frames[1][8 * 32 + 1], to_rgb565(0, 0, 0, 0));
    assert_eq!(frames[1][31 * 32 + 31], to_rgb565(252, 252, 0, 255));
}

#[test]
fn anim_frames_of_no_frames_is_empty() {
    let img = RgbaImage::new(0, 0);
    assert!(anim_frames(&img, 9, 0).is_empty());
}

#[test]
fn trimming_a_trimmed_image_changes_nothing() {
    for img in [
        with_opaque(6, 6, &[(1, 4), (3, 2)]),
        with_opaque(5, 3, &[(4, 2)]),
        with_opaque(4, 4, &[]),
    ] {
        let once = trim_transparent(&img);
        let twice = trim_transparent(&once);
        assert_eq!(twice.dimensions(), once.dimensions());
        assert_eq!(twice.data, once.data);
    }
}
