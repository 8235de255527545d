use tama::fb::{Fb, FB_LEN, H, W};

fn blank() -> Fb {
    Fb::new(vec![0u8; FB_LEN])
}

fn px(fb: &Fb, x: usize, y: usize) -> u16 {
    let b = fb.bytes();
    let i = (y * W + x) * 2;
    ((b[i] as u16) << 8) | b[i + 1] as u16
}

#[test]
fn size_is_240_square() {
    assert_eq!(blank().size(), (240, 240));
    assert_eq!(FB_LEN, 240 * 240 * 2);
}

#[test]
fn fill_writes_big_endian_everywhere() {
    let mut fb = blank();
    fb.fill(0xFEDD);
    assert_eq!(fb.bytes()[0], 0xFE);
    assert_eq!(fb.bytes()[1], 0xDD);
    assert!(fb.bytes().chunks(2).all(|c| c == [0xFE, 0xDD]));
}

#[test]
fn blit_scales_each_pixel_to_a_block() {
    let mut fb = blank();
    let src = [0x1111u16, 0x2222, 0x3333, 0x4444];
    fb.blit_scaled(&src, 2, 2, 10, 20, 3, 0x07E0, false);
    assert_eq!(px(&fb, 10, 20), 0x1111);
    assert_eq!(px(&fb, 12, 22), 0x1111);
    assert_eq!(px(&fb, 13, 20), 0x2222);
    assert_eq!(px(&fb, 15, 25), 0x4444);
    assert_eq!(px(&fb, 16, 25), 0);
    assert_eq!(px(&fb, 9, 20), 0);
    assert_eq!(px(&fb, 10, 26), 0);
}

#[test]
fn blit_skips_transparent_pixels() {
    let mut fb = blank();
    fb.fill(0xABCD);
    let src = [0x07E0u16, 0x1234];
    fb.blit_scaled(&src, 2, 1, 0, 0, 2, 0x07E0, false);
    assert_eq!(px(&fb, 0, 0), 0xABCD);
    assert_eq!(px(&fb, 1, 1), 0xABCD);
    assert_eq!(px(&fb, 2, 0), 0x1234);
}

#[test]
fn blit_mirrors_when_flipped() {
    let mut fb = blank();
    let src = [0x0001u16, 0x0002, 0x0003];
    fb.blit_scaled(&src, 3, 1, 0, 0, 1, 0x07E0, true);
    assert_eq!(px(&fb, 0, 0), 0x0003);
    assert_eq!(px(&fb, 1, 0), 0x0002);
    assert_eq!(px(&fb, 2, 0), 0x0001);
}

#[test]
fn an_image_of_only_the_sentinel_draws_nothing() {
    let mut fb = blank();
    fb.fill(0x1357);
    let before = fb.bytes().to_vec();
    let src = vec![0x07E0u16; 32 * 32];
    fb.blit_scaled(&src, 32, 32, -10, 20, 6, 0x07E0, false);
    fb.blit_scaled(&src, 32, 32, 100, -5, 3, 0x07E0, true);
    assert!(fb.bytes() == &before[..]);
}

#[test]
fn flipped_blit_equals_blit_of_mirror_image() {
    let src = [0x0001u16, 0x0002, 0x07E0, 0x0004, 0x0005, 0x0006];
    let mirror = [0x07E0u16, 0x0002, 0x0001, 0x0006, 0x0005, 0x0004];
    let mut a = blank();
    a.fill(0x5555);
    a.blit_scaled(&src, 3, 2, 238, 5, 2, 0x07E0, true);
    let mut b = blank();
    b.fill(0x5555);
    b.blit_scaled(&mirror, 3, 2, 238, 5, 2, 0x07E0, false);
    assert!(a.bytes() == b.bytes());
    assert_eq!(px(&a, 238, 5), 0x5555);
    assert_eq!(px(&a, 239, 8), 0x0006);
}

#[test]
fn blit_is_clipped_at_every_edge() {
    let mut fb = blank();
    let src = [0x5555u16; 4];
    fb.blit_scaled(&src, 2, 2, -3, -3, 2, 0x07E0, false);
    assert_eq!(px(&fb, 0, 0), 0x5555);
    assert_eq!(px(&fb, 1, 0), 0);
    let mut fb = blank();
    fb.blit_scaled(&src, 2, 2, (W as i32) - 1, (H as i32) - 1, 4, 0x07E0, false);
    assert_eq!(px(&fb, W - 1, H - 1), 0x5555);
    assert_eq!(px(&fb, W - 2, H - 1), 0);
}

#[test]
fn blit_with_zero_or_negative_scale_draws_nothing() {
    let mut fb = blank();
    let src = [0x7777u16];
    fb.blit_scaled(&src, 1, 1, 5, 5, 0, 0x07E0, false);
    fb.blit_scaled(&src, 1, 1, 5, 5, -2, 0x07E0, false);
    assert!(fb.bytes().iter().all(|&b| b == 0));
}

#[test]
fn blit_entirely_off_screen_draws_nothing() {
    let mut fb = blank();
    let src = [0x7777u16; 4];
    fb.blit_scaled(&src, 2, 2, 300, 0, 6, 0x07E0, false);
    fb.blit_scaled(&src, 2, 2, -100, 0, 6, 0x07E0, false);
    assert!(fb.bytes().iter().all(|&b| b == 0));
}

#[test]
fn draw_iter_writes_in_bounds_pixels_and_last_wins() {
    let mut fb = blank();
    fb.draw_iter(&[(1, 2, 0xAAAA), (-1, 0, 0xBBBB), (240, 5, 0xCCCC), (1, 2, 0xDDDD), (239, 239, 0x0102)]);
    assert_eq!(px(&fb, 1, 2), 0xDDDD);
    assert_eq!(px(&fb, 239, 239), 0x0102);
    assert_eq!(px(&fb, 0, 0), 0);
}

#[test]
fn blit_reads_only_the_rows_that_land_on_the_screen() {
    // a 2 × 3 image whose last two rows fall below the screen: only the first is read
    let mut fb = blank();
    fb.blit_scaled(&[0x0101, 0x0202], 2, 3, 10, 239, 1, 0x07E0, false);
    assert_eq!(px(&fb, 10, 239), 0x0101);
    assert_eq!(px(&fb, 11, 239), 0x0202);
}

#[test]
fn transparent_columns_far_away_are_never_placed() {
    // the second column would lie beyond i32::MAX, but it is transparent
    let mut fb = blank();
    fb.blit_scaled(&[0x0303, 0x07E0], 2, 1, i32::MAX - 3, 0, 2, 0x07E0, false);
    assert!(fb.bytes().iter().all(|&b| b == 0));
}
