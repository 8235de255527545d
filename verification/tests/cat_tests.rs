use tama::cat::{anim_for, AnimDef, Cat, State};
use tama::input::Button;
use tama::sprites::{sheet_frames, sheet_row, Sheet};
use tama::time::{millis_to_ticks, secs_to_ticks, ticks_to_millis};

const MS: u64 = 1_000;
const SEC: u64 = 1_000_000;

#[test]
fn clock_runs_at_one_megahertz_here() {
    assert_eq!(secs_to_ticks(4), 4 * SEC);
    assert_eq!(millis_to_ticks(50), 50 * MS);
    assert_eq!(ticks_to_millis(1_234_567), 1234);
}

#[test]
fn animations_per_state() {
    assert_eq!(anim_for(State::Idle), AnimDef { sheet: Sheet::IdleA, frame_ms: 250 });
    assert_eq!(anim_for(State::Walk), AnimDef { sheet: Sheet::WalkA, frame_ms: 120 });
    assert_eq!(anim_for(State::Feed), AnimDef { sheet: Sheet::Jump, frame_ms: 120 });
    assert_eq!(anim_for(State::Pet), AnimDef { sheet: Sheet::IdleB, frame_ms: 250 });
    assert_eq!(anim_for(State::Scared).frame_ms, 100);
}

#[test]
fn sheet_table() {
    assert_eq!(sheet_row(Sheet::Scared), 9);
    assert_eq!(sheet_frames(Sheet::Jump), 7);
    assert_eq!(sheet_frames(Sheet::WalkA), 8);
    assert_eq!(sheet_frames(Sheet::Paw), 6);
}

#[test]
fn new_cat_is_idle_facing_right() {
    let c = Cat::new(1_000, 120);
    assert_eq!(c.state, State::Idle);
    assert_eq!(c.world_x, 120);
    assert_eq!(c.facing, 1);
    assert_eq!(c.frame, 0);
    assert_eq!(c.rng, 1_001);
}

#[test]
fn seed_is_always_odd() {
    assert_eq!(Cat::new(4, 0).rng, 5);
    assert_eq!(Cat::new((1u64 << 32) + 6, 0).rng, 7);
}

#[test]
fn buttons_feed_pet_and_play() {
    let mut c = Cat::new(0, 10);
    let r = c.tick(10 * MS, Some(Button::A), 240);
    assert_eq!(c.state, State::Feed);
    assert_eq!(r, (Sheet::Jump, 0));
    c.tick(20 * MS, Some(Button::B), 240);
    assert_eq!(c.state, State::Pet);
    c.tick(30 * MS, Some(Button::C), 240);
    assert_eq!(c.state, State::Paw);
    assert_eq!(c.entered, 30 * MS);
}

#[test]
fn a_state_ends_after_its_dwell() {
    let mut c = Cat::new(0, 10);
    c.tick(0, Some(Button::C), 240);
    c.tick(2 * SEC, None, 240);
    assert_eq!(c.state, State::Paw);
    c.tick(2 * SEC + 1, None, 240);
    assert_eq!(c.state, State::Idle);
    assert_eq!(c.entered, 2 * SEC + 1);
}

#[test]
fn pressing_the_same_button_late_ends_the_state() {
    let mut c = Cat::new(0, 10);
    c.tick(0, Some(Button::A), 240);
    c.tick(4 * SEC, Some(Button::A), 240);
    assert_eq!(c.state, State::Idle);
}

#[test]
fn idle_cat_rolls_at_most_once_a_second() {
    let mut c = Cat::new(0, 10);
    let rng = c.rng;
    c.tick(999_999, None, 240);
    assert_eq!(c.rng, rng);
    c.tick(SEC, None, 240);
    assert_ne!(c.rng, rng);
    assert_eq!(c.last_roll, SEC);
}

#[test]
fn frames_advance_after_the_frame_time() {
    let mut c = Cat::new(0, 10);
    c.last_roll = 10 * SEC; // keep the dice quiet
    assert_eq!(c.tick(249 * MS, None, 240), (Sheet::IdleA, 0));
    assert_eq!(c.tick(250 * MS, None, 240), (Sheet::IdleA, 1));
    c.tick(500 * MS, None, 240);
    c.tick(750 * MS, None, 240);
    assert_eq!(c.tick(1000 * MS, None, 240), (Sheet::IdleA, 0));
}

#[test]
fn walking_steps_one_pixel_every_50_ms() {
    let mut c = Cat::new(0, 100);
    c.state = State::Walk;
    c.facing = -1;
    c.tick(175 * MS, None, 240);
    assert_eq!(c.world_x, 97);
    assert_eq!(c.last_step, 150 * MS);
}

#[test]
fn walking_turns_around_at_the_edges() {
    let mut c = Cat::new(0, 2);
    c.state = State::Walk;
    c.facing = -1;
    c.tick(100 * MS, None, 240);
    assert_eq!((c.world_x, c.facing), (0, 1));
    let mut c = Cat::new(0, 237);
    c.state = State::Walk;
    c.tick(100 * MS, None, 240);
    assert_eq!((c.world_x, c.facing), (239, -1));
    c.tick(150 * MS, None, 240);
    assert_eq!((c.world_x, c.facing), (238, -1));
}

#[test]
fn a_walk_ends_after_four_seconds() {
    let mut c = Cat::new(0, 100);
    c.state = State::Walk;
    c.tick(4 * SEC + 1, None, 240);
    assert_eq!(c.state, State::Idle);
    assert_eq!(c.last_step, 4 * SEC + 1);
}

#[test]
fn the_cat_never_leaves_the_world() {
    let mut c = Cat::new(0, 120);
    let mut now = 0;
    for i in 0..20_000u64 {
        now += 7 * MS;
        let btn = if i % 997 == 0 { Some(Button::C) } else { None };
        let (sheet, frame) = c.tick(now, btn, 240);
        assert!(c.world_x >= 0 && c.world_x < 240);
        assert!(c.facing == 1 || c.facing == -1);
        assert!((frame as u32) < sheet_frames(sheet));
    }
}

#[test]
fn a_press_works_at_the_limits_of_i32() {
    // A press never walks the cat, so a cat at the very edge of i32 can be fed.
    let mut c = Cat::new(0, i32::MAX);
    let r = c.tick(10 * MS, Some(Button::A), i32::MIN);
    assert_eq!(r, (Sheet::Jump, 0));
    assert_eq!((c.state, c.world_x, c.facing, c.entered), (State::Feed, i32::MAX, 1, 10 * MS));
}

#[test]
fn tick_checked_refuses_a_walk_past_i32_and_changes_nothing() {
    let mut c = Cat::new(0, i32::MAX - 1);
    c.state = State::Walk;
    let before = c;
    // two steps: the first reaches the right edge of a world as wide as i32
    // allows and turns back, the second walks left
    assert!(c.tick_checked(100 * MS, None, i32::MAX).is_some());
    assert_eq!((c.world_x, c.facing), (i32::MAX - 2, -1));
    let mut d = before;
    d.facing = 1;
    d.world_x = i32::MAX;
    assert_eq!(d.tick_checked(100 * MS, None, i32::MAX), None);
    assert_eq!((d.world_x, d.last_step, d.state), (i32::MAX, 0, State::Walk));
    // a press at the same position is fine: it does not walk
    assert_eq!(d.tick_checked(100 * MS, Some(Button::B), i32::MAX), Some((Sheet::IdleB, 0)));
}

#[test]
fn ticking_again_at_the_same_instant_changes_nothing() {
    let mut c = Cat::new(0, 120);
    c.state = State::Walk;
    for now in [SEC, 2 * SEC + 7, 5 * SEC] {
        let r1 = c.tick(now, None, 240);
        let (x, f, frame, state) = (c.world_x, c.facing, c.frame, c.state);
        let r2 = c.tick(now, None, 240);
        assert_eq!(r1, r2);
        assert_eq!((c.world_x, c.facing, c.frame, c.state), (x, f, frame, state));
    }
}
