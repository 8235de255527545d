use std::io::Cursor;

use tama::cat_sheet::{anim_frames, animations_from_png};
use tama::encode::to_rgb565;
use tama::props::{prop_cell, props_from_png};
use tama::raster::RgbaImage;
use tama::themes::{wall_from_png, wall_from_theme};

fn samples(w: u32, h: u32, f: impl Fn(u32, u32) -> [u8; 4]) -> Vec<u8> {
    let mut data = Vec::with_capacity((w * h * 4) as usize);
    for y in 0..h {
        for x in 0..w {
            data.extend_from_slice(&f(x, y));
        }
    }
    data
}

fn png(w: u32, h: u32, f: impl Fn(u32, u32) -> [u8; 4]) -> Vec<u8> {
    let img = image::RgbaImage::from_raw(w, h, samples(w, h, f)).unwrap();
    let mut bytes = Vec::new();
    img.write_to(&mut Cursor::new(&mut bytes), image::ImageFormat::Png).unwrap();
    bytes
}

fn raw(w: u32, h: u32, f: impl Fn(u32, u32) -> [u8; 4]) -> RgbaImage {
    RgbaImage::from_raw(w, h, samples(w, h, f)).unwrap()
}

fn gradient(x: u32, y: u32) -> [u8; 4] {
    [x as u8, y as u8, 7, if (x + y) % 3 == 0 { 40 } else { 255 }]
}

#[test]
fn animations_are_cut_from_the_decoded_sheet() {
    let all = animations_from_png(&png(256, 320, gradient)).unwrap();
    assert_eq!(all.len(), 10);
    assert_eq!(all.iter().map(|a| a.len()).collect::<Vec<_>>(), vec![4, 4, 4, 4, 8, 8, 4, 6, 7, 8]);
    // row 9 (scared), frame 7, pixel (1, 1) of the cell
    let (x, y) = (7 * 32 + 1, 9 * 32 + 1);
    let [r, g, b, a] = gradient(x, y);
    assert_eq!(all[9][7][33], to_rgb565(r, g, b, a));
    assert_eq!(all[4], anim_frames(&raw(256, 320, gradient), 4, 8));
}

#[test]
fn animations_need_a_sheet_that_holds_them_all_and_a_png_file() {
    assert!(animations_from_png(&png(255, 320, gradient)).is_none());
    assert!(animations_from_png(&png(256, 319, gradient)).is_none());
    assert!(animations_from_png(b"not a png").is_none());
    assert!(animations_from_png(&[]).is_none());
}

#[test]
fn wall_from_png_stacks_the_decoded_tiles() {
    let opaque = |x: u32, y: u32| [x as u8, y as u8, 3, 255];
    let wall = wall_from_png(&png(96, 16, opaque)).unwrap();
    let expected = wall_from_theme(&raw(96, 16, opaque));
    assert_eq!(wall.dimensions(), (16, 64));
    assert_eq!(wall.data, expected.data);
    assert_eq!(wall.get_pixel(0, 0), [32, 0, 3, 255]);
    assert!(wall_from_png(&[0x89, b'P', b'N', b'G']).is_none());
}

#[test]
fn props_from_png_cuts_and_trims_each_cell() {
    let sheet = |x: u32, y: u32| if (x, y) == (70, 10) || (x, y) == (72, 11) || (x, y) == (5, 60) {
        [1, 2, 3, 255]
    } else {
        [0, 0, 0, 0]
    };
    let cells = [(1, 0), (0, 0), (1, 0)];
    let props = props_from_png(&png(128, 64, sheet), &cells).unwrap();
    assert_eq!(props.len(), 3);
    assert_eq!(props[0].dimensions(), (3, 2));
    assert_eq!(props[1].dimensions(), (1, 1));
    assert_eq!(props[2].data, props[0].data);
    let from_raw = prop_cell(&raw(128, 64, sheet), 1, 0);
    assert_eq!(props[0].data, from_raw.data);
    assert!(props_from_png(b"\x89PNG\r\n", &cells).is_none());
}
