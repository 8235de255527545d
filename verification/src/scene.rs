//! The screen layout, the camera, and the composition of one frame.
use vstd::prelude::*;
use crate::fb::{Fb, W, H, blit_frame, fill_frame, cell_fits, fits_i32, blit_ok, lemma_blit_ok};
use crate::sprites::{SPRITE_W, SPRITE_H, TRANSPARENT};
use crate::world::{Room, draw, draw_ok, rooms_ok, lemma_rooms_ok_draw_ok, apply_blits, world_blits, small};

verus! {

/// Each native pixel becomes a `SCALE × SCALE` block on screen.
pub const SCALE: i32 = 6;
/// The colour behind everything.
pub const BG_COLOR: u16 = 0xFEDD;
/// The wall art is four tiles tall (64 native pixels); the floor seam sits at native y = 48.
pub const FLOOR_SEAM_NATIVE_Y: i32 = 48;
/// Sprite cells have a few empty rows at the bottom: the cat is drawn this
/// many screen pixels lower so that its feet sit on the floor.
pub const CAT_FOOT_NUDGE: i32 = 4;

/// Where things go on the screen.
#[derive(Clone, Copy, PartialEq, Eq, Debug, Structural)]
pub struct Layout {
    /// Side of the cat sprite on screen.
    pub sprite_px: i32,
    /// Screen row of the top of the cat sprite.
    pub cat_screen_y: i32,
    /// Screen row of the top of the wall art.
    pub wall_screen_y: i32,
    /// Native pixels of the world across the screen.
    pub view_native_w: i32,
}

/// The layout: the cat centred vertically (nudged down onto the floor), the
/// wall placed so that its floor seam meets the cat's nominal feet.
pub open spec fn layout_spec() -> Layout {
    Layout { sprite_px: 192, cat_screen_y: 28, wall_screen_y: -72i32, view_native_w: 40 }
}

/// Computes the layout of the screen.
pub fn layout() -> (l: Layout)
    ensures
        l == layout_spec(),
        l.sprite_px == SPRITE_W * SCALE,
        l.cat_screen_y == (H - l.sprite_px) / 2 + CAT_FOOT_NUDGE,
        l.wall_screen_y + FLOOR_SEAM_NATIVE_Y * SCALE == (H - l.sprite_px) / 2 + SPRITE_H * SCALE,
        l.view_native_w == (W as int) / (SCALE as int),
{
    let sprite_px = SPRITE_W as i32 * SCALE;
    let dy_centered = (H as i32 - sprite_px) / 2;
    let cat_screen_y = dy_centered + CAT_FOOT_NUDGE;
    let floor_anchor_y = dy_centered + SPRITE_H as i32 * SCALE;
    let wall_screen_y = floor_anchor_y - FLOOR_SEAM_NATIVE_Y * SCALE;
    let view_native_w = W as i32 / SCALE;
    Layout { sprite_px, cat_screen_y, wall_screen_y, view_native_w }
}

/// Half of `v`, rounded toward zero, as integer division does.
pub open spec fn half_toward_zero(v: int) -> int {
    if v >= 0 { v / 2 } else { -((-v) / 2) }
}

/// The camera's left edge: the cat at the centre of the view, clamped so that
/// the view stays within the world (at 0 when the world is narrower than the view).
pub open spec fn camera_spec(cat_x: int, world_w: int, view_native_w: int) -> int {
    let max_cam = if world_w - view_native_w > 0 { world_w - view_native_w } else { 0 };
    let want = cat_x - half_toward_zero(view_native_w);
    if want < 0 {
        0
    } else if want > max_cam {
        max_cam
    } else {
        want
    }
}

/// Where the camera's left edge goes in the world.
pub fn camera_x(cat_x: i32, world_w: i32, view_native_w: i32) -> (cam: i32)
    requires
        fits_i32(world_w - view_native_w),
        fits_i32(cat_x - half_toward_zero(view_native_w as int)),
    ensures
        cam == camera_spec(cat_x as int, world_w as int, view_native_w as int),
        0 <= cam,
        cam <= world_w - view_native_w || cam == 0,
        view_native_w > 0 && world_w >= view_native_w && 0 <= cat_x < world_w ==> 0 <= cat_x - cam
            < view_native_w,
{
    let max_cam = if world_w - view_native_w > 0 {
        world_w - view_native_w
    } else {
        0
    };
    let want = cat_x - view_native_w / 2;
    if want < 0 {
        0
    } else if want > max_cam {
        max_cam
    } else {
        want
    }
}

/// The screen column of the left edge of the cat sprite.
pub open spec fn cat_screen_x_spec(cat_x: int, cam_x: int) -> int {
    (cat_x - cam_x) * SCALE - 192int / 2
}

/// The cat stands on screen where it stands in the world. Under any camera,
/// the middle of its sprite (32 native pixels wide, each `SCALE` screen pixels)
/// lands on the screen column of its world position relative to the camera, so
/// a cat one native pixel further right is drawn `SCALE` screen pixels further
/// right. In a world at least as wide as the view, the camera keeps the cat in
/// the middle of the screen (its sprite from column 24) while it is at least
/// half a view from either edge; nearer the left edge the camera rests at 0 and
/// nearer the right edge at the world's width less the view, and the cat moves
/// across the screen instead.
pub proof fn lemma_cat_stands_where_it_is(cat_x: int, world_w: int, cam: int)
    ensures
        cat_screen_x_spec(cat_x, cam) + 32 * SCALE / 2 == (cat_x - cam) * SCALE,
        cat_screen_x_spec(cat_x + 1, cam) == cat_screen_x_spec(cat_x, cam) + SCALE,
        world_w >= 40 && 20 <= cat_x <= world_w - 20 ==> camera_spec(cat_x, world_w, 40) == cat_x - 20
            && cat_screen_x_spec(cat_x, camera_spec(cat_x, world_w, 40)) == 24,
        cat_x < 20 ==> camera_spec(cat_x, world_w, 40) == 0,
        world_w >= 40 && cat_x > world_w - 20 ==> camera_spec(cat_x, world_w, 40) == world_w - 40,
{
}

/// The exact condition under which `compose_frame` overflows nothing and reads
/// within its sprite: the camera fits, the world drawn from it fits, the cat
/// sprite's screen column fits, and so does its blit (the sprite holds its
/// 32 × 32 pixels, all of which land on the screen's rows).
pub open spec fn frame_ok(rooms: Seq<Room>, world_w: int, cat_x: int, sprite: Seq<u16>, facing: i8) -> bool {
    let cam = camera_spec(cat_x, world_w, 40);
    &&& fits_i32(world_w - 40)
    &&& fits_i32(cat_x - 20)
    &&& draw_ok(rooms, 0, cam, 40, -72, SCALE as int)
    &&& fits_i32((cat_x - cam) * SCALE)
    &&& fits_i32(cat_screen_x_spec(cat_x, cam))
    &&& blit_ok(sprite, 32, 32, cat_screen_x_spec(cat_x, cam), 28, SCALE as int, TRANSPARENT, facing < 0)
}

/// Rooms that `rooms_drawable` accepts, in a world and with a cat within a
/// million pixels, and a sprite of at least 32 × 32 pixels, make a frame that
/// `compose_frame` draws.
pub proof fn lemma_frame_ok(rooms: Seq<Room>, world_w: int, cat_x: int, sprite: Seq<u16>, facing: i8)
    requires
        rooms_ok(rooms),
        small(world_w),
        small(cat_x),
        sprite.len() >= 1024,
    ensures
        frame_ok(rooms, world_w, cat_x, sprite, facing),
{
    let cam = camera_spec(cat_x, world_w, 40);
    lemma_rooms_ok_draw_ok(rooms, cam, 40, -72, SCALE as int);
    assert forall|s: int| 0 <= s < 32 implies #[trigger] cell_fits(cat_screen_x_spec(cat_x, cam), s, SCALE as int) by {}
    assert forall|s: int| 0 <= s < 32 implies #[trigger] cell_fits(28, s, SCALE as int) by {}
    lemma_blit_ok(sprite, 32, 32, cat_screen_x_spec(cat_x, cam), 28, SCALE as int, TRANSPARENT, facing < 0);
}

/// Composes one frame: the background, the world as the camera sees it, and the
/// cat in front, mirrored when it faces left.
pub fn compose_frame(fb: &mut Fb, rooms: &[Room], world_w: i32, cat_x: i32, facing: i8, sprite: &[u16])
    requires
        old(fb).wf(),
        frame_ok(rooms@, world_w as int, cat_x as int, sprite@, facing),
    ensures
        final(fb).wf(),
        final(fb)@ == blit_frame(
            apply_blits(
                fill_frame(BG_COLOR),
                world_blits(rooms@, 0, camera_spec(cat_x as int, world_w as int, 40), 40, -72, SCALE as int),
                SCALE as int,
            ),
            sprite@,
            32,
            32,
            cat_screen_x_spec(cat_x as int, camera_spec(cat_x as int, world_w as int, 40)),
            28,
            SCALE as int,
            TRANSPARENT,
            facing < 0,
        ),
{
    let l = layout();
    let cam_x = camera_x(cat_x, world_w, l.view_native_w);
    fb.fill(BG_COLOR);
    draw(fb, rooms, cam_x, l.view_native_w, l.wall_screen_y, SCALE);
    let cat_screen_x = (cat_x - cam_x) * SCALE - l.sprite_px / 2;
    fb.blit_scaled(sprite, SPRITE_W, SPRITE_H, cat_screen_x, l.cat_screen_y, SCALE, TRANSPARENT, facing < 0);
}

} // verus!
