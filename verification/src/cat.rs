//! The cat: what it is doing, where it is, and which frame it shows.
use vstd::prelude::*;
use crate::input::Button;
use crate::sprites::{Sheet, sheet_frames, sheet_frames_spec};
use crate::time::{secs_to_ticks, millis_to_ticks, ticks_to_millis, secs_as_ticks, millis_as_ticks, ticks_as_millis};

verus! {

/// What the cat is doing.
#[derive(Clone, Copy, PartialEq, Eq, Debug, Structural)]
pub enum State {
    Idle,
    Walk,
    Sleep,
    Paw,
    Clean,
    Scared,
    Feed,
    Pet,
}

/// The animation shown in a state: its row of the sprite sheet and how long
/// each frame stays on screen.
#[derive(Clone, Copy, PartialEq, Eq, Debug, Structural)]
pub struct AnimDef {
    pub sheet: Sheet,
    pub frame_ms: u32,
}

/// The animation of each state.
pub open spec fn anim_spec(s: State) -> AnimDef {
    match s {
        State::Idle => AnimDef { sheet: Sheet::IdleA, frame_ms: 250 },
        State::Walk => AnimDef { sheet: Sheet::WalkA, frame_ms: 120 },
        State::Sleep => AnimDef { sheet: Sheet::Sleep, frame_ms: 400 },
        State::Paw => AnimDef { sheet: Sheet::Paw, frame_ms: 150 },
        State::Clean => AnimDef { sheet: Sheet::CleanA, frame_ms: 200 },
        State::Scared => AnimDef { sheet: Sheet::Scared, frame_ms: 100 },
        State::Feed => AnimDef { sheet: Sheet::Jump, frame_ms: 120 },
        State::Pet => AnimDef { sheet: Sheet::IdleB, frame_ms: 250 },
    }
}

/// The animation to play in state `s`.
pub fn anim_for(s: State) -> (d: AnimDef)
    ensures
        d == anim_spec(s),
{
    match s {
        State::Idle => AnimDef { sheet: Sheet::IdleA, frame_ms: 250 },
        State::Walk => AnimDef { sheet: Sheet::WalkA, frame_ms: 120 },
        State::Sleep => AnimDef { sheet: Sheet::Sleep, frame_ms: 400 },
        State::Paw => AnimDef { sheet: Sheet::Paw, frame_ms: 150 },
        State::Clean => AnimDef { sheet: Sheet::CleanA, frame_ms: 200 },
        State::Scared => AnimDef { sheet: Sheet::Scared, frame_ms: 100 },
        State::Feed => AnimDef { sheet: Sheet::Jump, frame_ms: 120 },
        State::Pet => AnimDef { sheet: Sheet::IdleB, frame_ms: 250 },
    }
}

/// Milliseconds between two one-pixel steps of a walk.
pub const WALK_STEP_MS: u64 = 50;
/// Pixels covered by one step of a walk.
pub const WALK_PX_PER_STEP: i32 = 1;

/// The state that a button press puts the cat in.
pub open spec fn button_state(b: Button) -> State {
    match b {
        Button::A => State::Feed,
        Button::B => State::Pet,
        Button::C => State::Paw,
    }
}

/// How many seconds the cat stays in a state before going back to idle
/// (longer than this, strictly); idle itself has no limit.
pub open spec fn dwell_secs(s: State) -> u64 {
    match s {
        State::Idle => 0,
        State::Walk => 4,
        State::Sleep => 10,
        State::Paw => 2,
        State::Clean => 3,
        State::Scared => 2,
        State::Feed => 3,
        State::Pet => 3,
    }
}

/// One step of the xorshift32 generator.
pub open spec fn xorshift32(x: u32) -> u32 {
    let a = x ^ (x << 13u32);
    let b = a ^ (a >> 17u32);
    b ^ (b << 5u32)
}

/// Entering state `next` at `now`: the clocks of the state restart and the
/// animation starts over; entering the current state changes nothing.
pub open spec fn transition(c: Cat, next: State, now: u64) -> Cat {
    if next == c.state {
        c
    } else {
        Cat { state: next, entered: now, last_roll: now, frame: 0, last_frame_at: now, ..c }
    }
}

/// The cat after a button press, if any.
pub open spec fn press(c: Cat, btn: Option<Button>, now: u64) -> Cat {
    match btn {
        Some(b) => transition(c, button_state(b), now),
        None => c,
    }
}

/// An idle cat rolls its dice at most once a second: one chance in 24 each to
/// start walking (in a random direction), to clean itself, or to fall asleep.
pub open spec fn roll_dice(c: Cat, now: u64) -> (Cat, Option<State>) {
    if now - c.last_roll < secs_as_ticks(1) {
        (c, None)
    } else {
        let r = xorshift32(c.rng);
        let rolled = Cat { last_roll: now, rng: r, ..c };
        if r % 24 == 0 {
            let r2 = xorshift32(r);
            (
                Cat { rng: r2, facing: if r2 & 1 == 0 { -1i8 } else { 1i8 }, ..rolled },
                Some(State::Walk),
            )
        } else if r % 24 == 1 {
            (rolled, Some(State::Clean))
        } else if r % 24 == 2 {
            (rolled, Some(State::Sleep))
        } else {
            (rolled, None)
        }
    }
}

/// The cat after deciding what to do next: an idle cat rolls its dice; any
/// other state ends, back to idle, once it has lasted long enough.
pub open spec fn settle(c: Cat, now: u64) -> Cat {
    let (c1, next) = if c.state == State::Idle {
        roll_dice(c, now)
    } else if now - c.entered > secs_as_ticks(dwell_secs(c.state)) {
        (c, Some(State::Idle))
    } else {
        (c, None)
    };
    match next {
        Some(s) => transition(c1, s, now),
        None => c1,
    }
}

/// One step of a walk in a world `world_w` pixels wide: the cat moves by its
/// facing and turns around at either edge.
pub open spec fn stride(c: Cat, world_w: i32, step: u64) -> Cat {
    let x = c.world_x + c.facing * WALK_PX_PER_STEP;
    let (nx, nf) = if x <= 0 {
        (0, 1)
    } else if x >= world_w - 1 {
        (world_w - 1, -1)
    } else {
        (x, c.facing as int)
    };
    Cat { world_x: nx as i32, facing: nf as i8, last_step: (c.last_step + step) as u64, ..c }
}

/// A walk catches up with the clock: one step for every `step` ticks that have
/// passed since the last one.
pub open spec fn walk(c: Cat, now: u64, step: u64, world_w: i32) -> Cat
    decreases now - c.last_step,
{
    if step > 0 && c.last_step + step <= now {
        walk(stride(c, world_w, step), now, step, world_w)
    } else {
        c
    }
}

/// The cat after moving: a walking cat walks, any other keeps its step clock at `now`.
pub open spec fn move_phase(c: Cat, now: u64, world_w: i32) -> Cat {
    if c.state == State::Walk {
        walk(c, now, millis_as_ticks(WALK_STEP_MS), world_w)
    } else {
        Cat { last_step: now, ..c }
    }
}

/// The cat after animating: the next frame once the current one has been shown
/// for the animation's frame time.
pub open spec fn animate(c: Cat, now: u64) -> Cat {
    let def = anim_spec(c.state);
    if ticks_as_millis((now - c.last_frame_at) as u64) >= def.frame_ms {
        Cat {
            frame: ((c.frame + 1) % (sheet_frames_spec(def.sheet) as int)) as usize,
            last_frame_at: now,
            ..c
        }
    } else {
        c
    }
}

/// The cat after one tick of the game at `now`.
pub open spec fn ticked(c: Cat, now: u64, btn: Option<Button>, world_w: i32) -> Cat {
    animate(move_phase(settle(press(c, btn, now), now), now, world_w), now)
}

/// A walk from `c` up to `now` overflows nothing: no step takes the cat past
/// the limits of `i32`, and the right edge `world_w - 1` fits wherever a step
/// lands right of 0 (that is where the walk compares against it).
pub open spec fn walk_ok(c: Cat, now: u64, step: u64, world_w: i32) -> bool
    decreases now - c.last_step,
{
    if step > 0 && c.last_step + step <= now {
        &&& i32::MIN <= c.world_x + c.facing <= i32::MAX
        &&& c.world_x + c.facing > 0 ==> world_w > i32::MIN
        &&& walk_ok(stride(c, world_w, step), now, step, world_w)
    } else {
        true
    }
}

/// The exact condition under which a tick overflows nothing: when the cat,
/// after the press and its decision, walks, the walk overflows nothing.
pub open spec fn tick_ok(c: Cat, now: u64, btn: Option<Button>, world_w: i32) -> bool {
    let s = settle(press(c, btn, now), now);
    s.state == State::Walk ==> walk_ok(s, now, millis_as_ticks(WALK_STEP_MS), world_w)
}

/// The cat. Times are ticks of the `embassy_time` clock.
#[derive(Clone, Copy)]
pub struct Cat {
    /// What it is doing.
    pub state: State,
    /// When it entered that state.
    pub entered: u64,
    /// When it last rolled the idle dice.
    pub last_roll: u64,
    /// When it last took a step.
    pub last_step: u64,
    /// The frame of the animation on screen.
    pub frame: usize,
    /// When that frame came on screen.
    pub last_frame_at: u64,
    /// The state of its random generator.
    pub rng: u32,
    /// Where it stands, in native world pixels.
    pub world_x: i32,
    /// `1` when it faces right, `-1` when it faces left.
    pub facing: i8,
}

impl Cat {
    /// The frame shown belongs to the animation of the state.
    pub open spec fn wf(&self) -> bool {
        self.frame < sheet_frames_spec(anim_spec(self.state).sheet)
    }
}

/// A walk changes neither the state, its clocks, the generator nor the animation.
proof fn lemma_walk_keeps_state(c: Cat, now: u64, step: u64, world_w: i32)
    ensures
        walk(c, now, step, world_w).state == c.state,
        walk(c, now, step, world_w).frame == c.frame,
        walk(c, now, step, world_w).last_frame_at == c.last_frame_at,
        walk(c, now, step, world_w).entered == c.entered,
        walk(c, now, step, world_w).last_roll == c.last_roll,
        walk(c, now, step, world_w).rng == c.rng,
    decreases now - c.last_step,
{
    if step > 0 && c.last_step + step <= now {
        lemma_walk_keeps_state(stride(c, world_w, step), now, step, world_w);
    }
}

/// A walk stops where the next step would pass `now`.
proof fn lemma_walk_done(c: Cat, now: u64, step: u64, world_w: i32)
    ensures
        !(step > 0 && walk(c, now, step, world_w).last_step + step <= now),
    decreases now - c.last_step,
{
    if step > 0 && c.last_step + step <= now {
        lemma_walk_done(stride(c, world_w, step), now, step, world_w);
    }
}

/// A tick is done with its instant: ticking the cat again at the same instant,
/// with no button, changes nothing, on any clock whose second lasts at least
/// one tick and whose zero ticks are zero milliseconds (as `secs_to_ticks` and
/// `ticks_to_millis` guarantee).
pub proof fn lemma_tick_again_changes_nothing(c: Cat, now: u64, btn: Option<Button>, world_w: i32)
    requires
        secs_as_ticks(1) > 0,
        ticks_as_millis(0) == 0,
    ensures
        ticked(ticked(c, now, btn, world_w), now, None, world_w) == ticked(c, now, btn, world_w),
{
    let s = settle(press(c, btn, now), now);
    let step = millis_as_ticks(WALK_STEP_MS);
    if s.state == State::Walk {
        lemma_walk_done(s, now, step, world_w);
        lemma_walk_keeps_state(s, now, step, world_w);
    }
    let m = move_phase(s, now, world_w);
    let f = animate(m, now);
    assert(f.state == s.state && f.entered == s.entered && f.last_roll == s.last_roll && f.rng == s.rng);
    assert(press(f, None, now) == f);
    assert(settle(f, now) == f);
    if f.state == State::Walk {
        assert(walk(f, now, step, world_w) == f);
    }
    assert(move_phase(f, now, world_w) == f);
    assert(animate(f, now) == f);
}

/// What each state shows, and for how long each frame stays on screen: idle
/// the first idle animation at 250 ms, walking the first walk at 120 ms,
/// sleeping at 400 ms, pawing at 150 ms, cleaning the first cleaning animation
/// at 200 ms, a fright at 100 ms, a meal the jump at 120 ms, a petting the
/// second idle animation at 250 ms. The buttons feed (A), pet (B) and play (C,
/// a paw).
pub proof fn lemma_animation_table()
    ensures
        anim_spec(State::Idle) == (AnimDef { sheet: Sheet::IdleA, frame_ms: 250 }),
        anim_spec(State::Walk) == (AnimDef { sheet: Sheet::WalkA, frame_ms: 120 }),
        anim_spec(State::Sleep) == (AnimDef { sheet: Sheet::Sleep, frame_ms: 400 }),
        anim_spec(State::Paw) == (AnimDef { sheet: Sheet::Paw, frame_ms: 150 }),
        anim_spec(State::Clean) == (AnimDef { sheet: Sheet::CleanA, frame_ms: 200 }),
        anim_spec(State::Scared) == (AnimDef { sheet: Sheet::Scared, frame_ms: 100 }),
        anim_spec(State::Feed) == (AnimDef { sheet: Sheet::Jump, frame_ms: 120 }),
        anim_spec(State::Pet) == (AnimDef { sheet: Sheet::IdleB, frame_ms: 250 }),
        button_state(Button::A) == State::Feed,
        button_state(Button::B) == State::Pet,
        button_state(Button::C) == State::Paw,
{
}

/// How long each state lasts, in seconds, before the cat goes back to idle:
/// a walk 4, a nap 10, a paw 2, cleaning 3, a fright 2, a meal 3, a petting 3.
/// With no button pressed, a cat that is not idle keeps its state exactly
/// while no more than that time has passed since it entered it, and goes back
/// to idle once more has.
pub proof fn lemma_states_last_their_time(c: Cat, now: u64, world_w: i32)
    requires
        c.state != State::Idle,
    ensures
        ({
            let secs: u64 = match c.state {
                State::Walk => 4,
                State::Sleep => 10,
                State::Paw => 2,
                State::Clean => 3,
                State::Scared => 2,
                State::Feed => 3,
                State::Pet => 3,
                State::Idle => 0,
            };
            &&& now - c.entered <= secs_as_ticks(secs) ==> ticked(c, now, None, world_w).state == c.state
            &&& now - c.entered > secs_as_ticks(secs) ==> ticked(c, now, None, world_w).state == State::Idle
        }),
{
    let s = settle(press(c, None, now), now);
    lemma_walk_keeps_state(s, now, millis_as_ticks(WALK_STEP_MS), world_w);
}

/// A cat inside a world at least a pixel wide, facing left or right, can walk
/// for any length of time without an overflow: every tick of it is safe.
pub proof fn lemma_in_world_walk_ok(c: Cat, now: u64, step: u64, world_w: i32)
    requires
        1 <= world_w,
        0 <= c.world_x < world_w,
        c.facing == 1 || c.facing == -1,
    ensures
        walk_ok(c, now, step, world_w),
    decreases now - c.last_step,
{
    if step > 0 && c.last_step + step <= now {
        lemma_in_world_walk_ok(stride(c, world_w, step), now, step, world_w);
    }
}

/// A cat inside a world at least a pixel wide, facing left or right, can
/// always be ticked.
pub proof fn lemma_in_world_tick_ok(c: Cat, now: u64, btn: Option<Button>, world_w: i32)
    requires
        1 <= world_w,
        0 <= c.world_x < world_w,
        c.facing == 1 || c.facing == -1,
    ensures
        tick_ok(c, now, btn, world_w),
{
    let s = settle(press(c, btn, now), now);
    lemma_in_world_walk_ok(s, now, millis_as_ticks(WALK_STEP_MS), world_w);
}

/// The cat never leaves the world: a cat standing inside a world at least one
/// pixel wide, facing left or right, still stands inside it and still faces
/// left or right after any tick.
pub proof fn lemma_tick_stays_in_world(c: Cat, now: u64, btn: Option<Button>, world_w: i32)
    requires
        1 <= world_w,
        0 <= c.world_x < world_w,
        c.facing == 1 || c.facing == -1,
    ensures
        0 <= ticked(c, now, btn, world_w).world_x < world_w,
        ticked(c, now, btn, world_w).facing == 1 || ticked(c, now, btn, world_w).facing == -1,
{
    let s = settle(press(c, btn, now), now);
    lemma_walk_stays_in_world(s, now, millis_as_ticks(WALK_STEP_MS), world_w);
}

/// Walking keeps a cat inside the world and facing left or right.
proof fn lemma_walk_stays_in_world(c: Cat, now: u64, step: u64, world_w: i32)
    requires
        1 <= world_w,
        0 <= c.world_x < world_w,
        c.facing == 1 || c.facing == -1,
    ensures
        0 <= walk(c, now, step, world_w).world_x < world_w,
        walk(c, now, step, world_w).facing == 1 || walk(c, now, step, world_w).facing == -1,
    decreases now - c.last_step,
{
    if step > 0 && c.last_step + step <= now {
        lemma_walk_stays_in_world(stride(c, world_w, step), now, step, world_w);
    }
}

impl Cat {
    /// A cat sitting idle at `world_x`, facing right, its clocks started at `now`
    /// and its random generator seeded from the clock.
    pub fn new(now: u64, world_x: i32) -> (c: Cat)
        ensures
            c == (Cat {
                state: State::Idle,
                entered: now,
                last_roll: now,
                last_step: now,
                frame: 0,
                last_frame_at: now,
                rng: (now as u32) | 1,
                world_x,
                facing: 1,
            }),
            c.wf(),
    {
        Cat {
            state: State::Idle,
            entered: now,
            last_roll: now,
            last_step: now,
            frame: 0,
            last_frame_at: now,
            rng: (now as u32) | 1,
            world_x,
            facing: 1,
        }
    }

    /// Advances the generator and returns its new value.
    fn rand(&mut self) -> (x: u32)
        ensures
            x == xorshift32(old(self).rng),
            *final(self) == (Cat { rng: x, ..*old(self) }),
    {
        let mut x = self.rng;
        x ^= x << 13;
        x ^= x >> 17;
        x ^= x << 5;
        self.rng = x;
        x
    }

    /// Enters state `next` at `now`.
    fn transition(&mut self, next: State, now: u64)
        ensures
            *final(self) == transition(*old(self), next, now),
    {
        if next == self.state {
            return;
        }
        self.state = next;
        self.entered = now;
        self.last_roll = now;
        self.frame = 0;
        self.last_frame_at = now;
    }

    /// Rolls the idle dice.
    fn idle_dice(&mut self, now: u64) -> (next: Option<State>)
        requires
            old(self).last_roll <= now,
        ensures
            (*final(self), next) == roll_dice(*old(self), now),
    {
        if now - self.last_roll < secs_to_ticks(1) {
            return None;
        }
        self.last_roll = now;
        let r = self.rand();
        if r % 24 == 0 {
            let r2 = self.rand();
            self.facing = if r2 & 1 == 0 {
                -1
            } else {
                1
            };
            Some(State::Walk)
        } else if r % 24 == 1 {
            Some(State::Clean)
        } else if r % 24 == 2 {
            Some(State::Sleep)
        } else {
            None
        }
    }

    /// The button press, if any, then the cat's decision of what to do next.
    fn settle_phase(&mut self, now: u64, btn: Option<Button>)
        requires
            old(self).entered <= now,
            old(self).last_roll <= now,
        ensures
            *final(self) == settle(press(*old(self), btn, now), now),
    {
        if let Some(b) = btn {
            let next = match b {
                Button::A => State::Feed,
                Button::B => State::Pet,
                Button::C => State::Paw,
            };
            self.transition(next, now);
        }
        let ghost pressed = *self;
        let dwell = now - self.entered;
        let next = match self.state {
            State::Idle => self.idle_dice(now),
            State::Walk => if dwell > secs_to_ticks(4) {
                Some(State::Idle)
            } else {
                None
            },
            State::Sleep => if dwell > secs_to_ticks(10) {
                Some(State::Idle)
            } else {
                None
            },
            State::Paw => if dwell > secs_to_ticks(2) {
                Some(State::Idle)
            } else {
                None
            },
            State::Clean => if dwell > secs_to_ticks(3) {
                Some(State::Idle)
            } else {
                None
            },
            State::Scared => if dwell > secs_to_ticks(2) {
                Some(State::Idle)
            } else {
                None
            },
            State::Feed => if dwell > secs_to_ticks(3) {
                Some(State::Idle)
            } else {
                None
            },
            State::Pet => if dwell > secs_to_ticks(3) {
                Some(State::Idle)
            } else {
                None
            },
        };
        if let Some(s) = next {
            self.transition(s, now);
        }
        assert(*self == settle(pressed, now));
    }

    /// Whether a walk from this cat up to `now` overflows nothing: the walk
    /// is played out on a copy, step by step, with every sum checked.
    fn walk_fits(&self, now: u64, world_w: i32) -> (ok: bool)
        ensures
            ok == walk_ok(*self, now, millis_as_ticks(WALK_STEP_MS), world_w),
    {
        let step = millis_to_ticks(WALK_STEP_MS);
        let mut c = *self;
        while now.saturating_sub(c.last_step) >= step
            invariant
                step == millis_as_ticks(WALK_STEP_MS),
                step > 0,
                walk_ok(c, now, step, world_w) == walk_ok(*self, now, step, world_w),
            decreases now - c.last_step,
        {
            let x: i64 = c.world_x as i64 + c.facing as i64;
            if x < i32::MIN as i64 || x > i32::MAX as i64 {
                return false;
            }
            if x > 0 && world_w == i32::MIN {
                return false;
            }
            c.world_x = x as i32;
            if c.world_x <= 0 {
                c.world_x = 0;
                c.facing = 1;
            } else if c.world_x >= world_w - 1 {
                c.world_x = world_w - 1;
                c.facing = -1;
            }
            c.last_step += step;
        }
        true
    }

    /// Advances the cat to `now`, after an optional button press, in a world
    /// `world_w` pixels wide, and returns the animation and frame to show.
    pub fn tick(&mut self, now: u64, btn: Option<Button>, world_w: i32) -> (r: (Sheet, usize))
        requires
            old(self).wf(),
            old(self).entered <= now,
            old(self).last_roll <= now,
            old(self).last_frame_at <= now,
            now - old(self).last_frame_at <= u64::MAX / 1000,
            tick_ok(*old(self), now, btn, world_w),
        ensures
            *final(self) == ticked(*old(self), now, btn, world_w),
            final(self).wf(),
            r == (anim_spec(final(self).state).sheet, final(self).frame),
            r.1 < sheet_frames_spec(r.0),
            btn matches Some(b) ==> (old(self).state != button_state(b) || now - old(self).entered
                <= secs_as_ticks(dwell_secs(old(self).state)) ==> final(self).state == button_state(b)),
            btn matches Some(b) && old(self).state != button_state(b) ==> final(self).frame == 0
                && final(self).entered == now,
            btn is Some ==> final(self).world_x == old(self).world_x && final(self).facing == old(
                self,
            ).facing,
            btn is None && old(self).state != State::Idle && now - old(self).entered > secs_as_ticks(
                dwell_secs(old(self).state),
            ) ==> final(self).state == State::Idle,
            btn is None && old(self).state == State::Idle && now - old(self).last_roll
                < secs_as_ticks(1) ==> final(self).state == State::Idle && final(self).rng == old(
                self,
            ).rng,
    {
        self.settle_phase(now, btn);
        let ghost settled = *self;
        if self.state == State::Walk {
            let step = millis_to_ticks(WALK_STEP_MS);
            while now.saturating_sub(self.last_step) >= step
                invariant
                    step == millis_as_ticks(WALK_STEP_MS),
                    step > 0,
                    walk(*self, now, step, world_w) == walk(settled, now, step, world_w),
                    walk_ok(*self, now, step, world_w),
                decreases now - self.last_step,
            {
                self.world_x += self.facing as i32 * WALK_PX_PER_STEP;
                if self.world_x <= 0 {
                    self.world_x = 0;
                    self.facing = 1;
                } else if self.world_x >= world_w - 1 {
                    self.world_x = world_w - 1;
                    self.facing = -1;
                }
                self.last_step += step;
            }
            proof {
                lemma_walk_keeps_state(settled, now, step, world_w);
            }
        } else {
            self.last_step = now;
        }
        assert(*self == move_phase(settled, now, world_w));
        let ghost moved = *self;
        let def = anim_for(self.state);
        let frames = sheet_frames(def.sheet) as usize;
        if ticks_to_millis(now - self.last_frame_at) >= def.frame_ms as u64 {
            self.frame = (self.frame + 1) % frames;
            self.last_frame_at = now;
        }
        assert(*self == animate(moved, now));
        (def.sheet, self.frame)
    }

    /// `tick`, where the tick overflows nothing (`tick_ok`); otherwise the cat
    /// is left as it was and the result is `None`.
    pub fn tick_checked(&mut self, now: u64, btn: Option<Button>, world_w: i32) -> (r: Option<(Sheet, usize)>)
        requires
            old(self).wf(),
            old(self).entered <= now,
            old(self).last_roll <= now,
            old(self).last_frame_at <= now,
            now - old(self).last_frame_at <= u64::MAX / 1000,
        ensures
            (r is Some) <==> tick_ok(*old(self), now, btn, world_w),
            r matches Some(v) ==> *final(self) == ticked(*old(self), now, btn, world_w) && v == (
                anim_spec(final(self).state).sheet,
                final(self).frame,
            ),
            r is None ==> *final(self) == *old(self),
            final(self).wf(),
    {
        let mut probe = *self;
        probe.settle_phase(now, btn);
        if probe.state == State::Walk && !probe.walk_fits(now, world_w) {
            return None;
        }
        Some(self.tick(now, btn, world_w))
    }
}

} // verus!
