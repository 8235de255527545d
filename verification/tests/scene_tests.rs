use tama::display::{set_addr_window, CASET, RAMWR, RASET};
use tama::fb::{Fb, FB_LEN, W};
use tama::input::{watch_step, WatchAction, WatchEvent, WatchState, DEBOUNCE_MS, SETTLE_MS};
use tama::scene::{camera_x, compose_frame, layout, Layout, BG_COLOR};
use tama::world::{Room, Theme};

#[test]
fn layout_puts_the_floor_seam_under_the_cat() {
    assert_eq!(
        layout(),
        Layout { sprite_px: 192, cat_screen_y: 28, wall_screen_y: -72, view_native_w: 40 }
    );
}

#[test]
fn camera_centres_the_cat_and_stays_in_the_world() {
    assert_eq!(camera_x(120, 240, 40), 100);
    assert_eq!(camera_x(5, 240, 40), 0);
    assert_eq!(camera_x(235, 240, 40), 200);
    assert_eq!(camera_x(30, 20, 40), 0);
    assert_eq!(camera_x(10, 240, -7), 13);
}

#[test]
fn compose_draws_background_world_and_cat() {
    let wall = vec![0x1234u16; 1024];
    let rooms = vec![Room { width: 240, theme: Theme { w: 16, h: 64, pixels: &wall }, props: vec![] }];
    let mut sprite = vec![0x07E0u16; 1024];
    sprite[0] = 0xAAAA;
    let mut fb = Fb::new(vec![0; FB_LEN]);
    compose_frame(&mut fb, &rooms, 240, 120, 1, &sprite);
    let b = fb.bytes();
    let px = |x: usize, y: usize| ((b[(y * W + x) * 2] as u16) << 8) | b[(y * W + x) * 2 + 1] as u16;
    // wall covers screen rows -72 .. 312 → everywhere
    assert_eq!(px(0, 0), 0x1234);
    // cat's top-left pixel: screen x = (120 - 100) * 6 - 96 = 24, y = 28
    assert_eq!(px(24, 28), 0xAAAA);
    assert_eq!(px(29, 33), 0xAAAA);
    assert_eq!(px(30, 28), 0x1234);
    let mut fb = Fb::new(vec![0; FB_LEN]);
    compose_frame(&mut fb, &[], 240, 120, -1, &sprite);
    let b = fb.bytes();
    let px = |x: usize, y: usize| ((b[(y * W + x) * 2] as u16) << 8) | b[(y * W + x) * 2 + 1] as u16;
    assert_eq!(px(0, 0), BG_COLOR);
    // mirrored: the top-left source pixel lands at the right edge of the sprite
    assert_eq!(px(24 + 31 * 6, 28), 0xAAAA);
}

#[test]
fn address_window_commands_are_big_endian() {
    let cmds = set_addr_window(0, 0, 239, 239);
    assert_eq!(cmds[0], (CASET, [0, 0, 0, 239]));
    assert_eq!(cmds[1], (RASET, [0, 0, 0, 239]));
    let cmds = set_addr_window(0x0102, 0x0304, 0x0506, 0x0708);
    assert_eq!(cmds, [(0x2A, [1, 2, 5, 6]), (0x2B, [3, 4, 7, 8])]);
    assert_eq!(RAMWR, 0x2C);
}

#[test]
fn a_held_press_is_reported_once() {
    let (s, a) = watch_step(WatchState::Armed, WatchEvent::Fell);
    assert_eq!((s, a), (WatchState::Debouncing, WatchAction::Sleep { ms: DEBOUNCE_MS }));
    let (s, a) = watch_step(s, WatchEvent::Slept { high: false });
    assert_eq!((s, a), (WatchState::Held, WatchAction::ReportThenWaitRising));
    let (s, a) = watch_step(s, WatchEvent::Rose);
    assert_eq!((s, a), (WatchState::Settling, WatchAction::Sleep { ms: SETTLE_MS }));
    let (s, a) = watch_step(s, WatchEvent::Slept { high: true });
    assert_eq!((s, a), (WatchState::Armed, WatchAction::WaitFalling));
}

#[test]
fn a_transient_is_dropped() {
    let (s, _) = watch_step(WatchState::Armed, WatchEvent::Fell);
    let (s, a) = watch_step(s, WatchEvent::Slept { high: true });
    assert_eq!((s, a), (WatchState::Armed, WatchAction::WaitFalling));
}

#[test]
fn unexpected_events_change_nothing() {
    assert_eq!(watch_step(WatchState::Armed, WatchEvent::Rose).0, WatchState::Armed);
    assert_eq!(watch_step(WatchState::Held, WatchEvent::Fell).0, WatchState::Held);
}

#[test]
fn presses_are_reported_once_per_release() {
    let fell = WatchEvent::Fell;
    let low = WatchEvent::Slept { high: false };
    let high = WatchEvent::Slept { high: true };
    let rose = WatchEvent::Rose;
    let events = [
        fell, low, // press: reported
        fell, low, fell, // bounces while held change nothing
        rose, // released
        fell, low, // a fall while settling is ignored; the settle delay re-arms
        fell, high, // transient: dropped
        fell, low, // second press: reported
    ];
    let mut s = WatchState::Armed;
    let mut reports = 0;
    for e in events {
        let (next, a) = watch_step(s, e);
        if next == WatchState::Held && s != WatchState::Held {
            assert_eq!(a, WatchAction::ReportThenWaitRising);
            reports += 1;
        }
        s = next;
    }
    let rises = events.iter().filter(|e| **e == rose).count();
    assert_eq!(reports, 2);
    assert!(reports <= rises + 1);
}
