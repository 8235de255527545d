use tama::fb::{Fb, FB_LEN, W};
use tama::firmware::world as furnished;
use tama::world::{draw, room_widths, rooms_drawable, world, world_width, Prop, Room, Theme};

fn pixels(n: usize, c: u16) -> &'static [u16] {
    Vec::leak(vec![c; n])
}

fn theme(w: usize, h: usize, c: u16) -> Theme<'static> {
    Theme { w, h, pixels: pixels(w * h, c) }
}

fn px(fb: &Fb, x: usize, y: usize) -> u16 {
    let b = fb.bytes();
    let i = (y * W + x) * 2;
    ((b[i] as u16) << 8) | b[i + 1] as u16
}

#[test]
fn world_is_three_rooms_of_80() {
    assert_eq!(room_widths(), vec![80, 80, 80]);
    assert_eq!(world_width(), 240);
    let rooms = world(theme(16, 64, 1), theme(16, 64, 2), theme(16, 64, 3));
    assert_eq!(rooms.len(), 3);
    assert_eq!(rooms.iter().map(|r| r.width).sum::<i32>(), world_width());
    assert_eq!(rooms[2].theme.pixels[0], 3);
    assert!(rooms.iter().all(|r| r.props.is_empty()));
}

#[test]
fn furnished_world_is_three_rooms_of_160() {
    assert_eq!(furnished::world_width(), 480);
    let art = |n: u16| (0..9).map(|i| furnished::Sprite { w: 1, h: 1, pixels: pixels(1, n * 10 + i) }).collect::<Vec<_>>();
    let rooms = furnished::world(vec![theme(16, 64, 1), theme(16, 64, 2), theme(16, 64, 3)], vec![art(1), art(2), art(3)]);
    assert_eq!(rooms.len(), 3);
    assert!(rooms.iter().all(|r| r.width == 160 && r.props.len() == 9));
    assert_eq!((rooms[0].props[3].x, rooms[0].props[3].y), (54, 32));
    assert_eq!(rooms[0].props[3].pixels, &[13]);
    assert_eq!((rooms[1].props[6].x, rooms[1].props[6].y), (0, 23));
    assert_eq!((rooms[2].props[8].x, rooms[2].props[8].y), (145, 34));
    assert_eq!(rooms[2].props[8].pixels, &[38]);
    assert_eq!(furnished::prop_positions()[1][8], (138, 27));
}

#[test]
fn draw_tiles_the_wall_and_skips_rooms_out_of_view() {
    let rooms = vec![
        Room { width: 4, theme: theme(2, 1, 0x0101), props: vec![] },
        Room { width: 3, theme: theme(2, 1, 0x0202), props: vec![] },
        Room { width: 50, theme: theme(1, 1, 0x0303), props: vec![] },
    ];
    let mut fb = Fb::new(vec![0; FB_LEN]);
    // camera at world x = 1 showing 5 native pixels, scale 2, wall at screen row 10
    draw(&mut fb, &rooms, 1, 5, 10, 2);
    // room 0 tiles at world 0 and 2 → screen x -2 and 2 (4 px wide each)
    assert_eq!(px(&fb, 0, 10), 0x0101);
    assert_eq!(px(&fb, 5, 11), 0x0101);
    // room 1 starts at world 4 → screen 6; its second tile overhangs into world 6..8
    assert_eq!(px(&fb, 6, 10), 0x0202);
    assert_eq!(px(&fb, 13, 10), 0x0202);
    // room 2 starts at world 7, beyond the view [1, 6): not drawn
    assert_eq!(px(&fb, 14, 10), 0);
    assert_eq!(px(&fb, 0, 12), 0);
}

#[test]
fn draw_puts_props_in_front_of_the_wall() {
    let rooms = vec![Room {
        width: 10,
        theme: theme(10, 4, 0x1111),
        props: vec![Prop { x: 2, y: 1, w: 2, h: 1, pixels: &[0x2222, 0x07E0] }],
    }];
    let mut fb = Fb::new(vec![0; FB_LEN]);
    draw(&mut fb, &rooms, 0, 40, 0, 1);
    assert_eq!(px(&fb, 2, 1), 0x2222);
    assert_eq!(px(&fb, 3, 1), 0x1111);
    assert_eq!(px(&fb, 1, 1), 0x1111);
}

#[test]
fn rooms_drawable_accepts_the_world_and_refuses_what_draw_cannot_take() {
    let rooms = world(theme(16, 64, 1), theme(16, 64, 2), theme(16, 64, 3));
    assert!(rooms_drawable(&rooms));
    assert!(rooms_drawable(&[]));
    // A wall tile with no width.
    assert!(!rooms_drawable(&[Room { width: 80, theme: theme(0, 64, 1), props: vec![] }]));
    // A wall tile with fewer pixels than its size says.
    let short = Theme { w: 16, h: 64, pixels: pixels(16 * 63, 1) };
    assert!(!rooms_drawable(&[Room { width: 80, theme: short, props: vec![] }]));
    // A prop placed too far away.
    let far = Prop { x: 0x10_0001, y: 0, w: 1, h: 1, pixels: &[1] };
    assert!(!rooms_drawable(&[Room { width: 80, theme: theme(16, 64, 1), props: vec![far] }]));
    // Rooms wider than a million pixels together, negative widths counted by size.
    let wide = vec![
        Room { width: 0x8_0000, theme: theme(16, 64, 1), props: vec![] },
        Room { width: -0x8_0001, theme: theme(16, 64, 1), props: vec![] },
    ];
    assert!(!rooms_drawable(&wide));
    let just = vec![
        Room { width: 0x8_0000, theme: theme(16, 64, 1), props: vec![] },
        Room { width: -0x8_0000, theme: theme(16, 64, 1), props: vec![] },
    ];
    assert!(rooms_drawable(&just));
}

#[test]
fn draw_at_scale_100_and_with_a_zero_width_tile_out_of_view() {
    // an empty wall tile is only a problem for a room in view
    let rooms = vec![
        Room { width: 3, theme: theme(1, 1, 0x0404), props: vec![Prop { x: 1, y: 0, w: 1, h: 1, pixels: &[0x0505] }] },
        Room { width: 10, theme: theme(0, 0, 0), props: vec![] },
    ];
    let mut fb = Fb::new(vec![0; FB_LEN]);
    // a view 2 pixels wide: room 1 starts at world 3, beyond it
    draw(&mut fb, &rooms, 0, 2, 5, 100);
    assert_eq!(px(&fb, 0, 5), 0x0404);
    assert_eq!(px(&fb, 99, 104), 0x0404);
    assert_eq!(px(&fb, 100, 5), 0x0505);
    assert_eq!(px(&fb, 199, 104), 0x0505);
    assert_eq!(px(&fb, 200, 5), 0x0404);
    assert_eq!(px(&fb, 0, 4), 0);
    assert_eq!(px(&fb, 0, 105), 0);
}
