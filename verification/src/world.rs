//! The world: a row of rooms, each a tiled wall with props in front of it.
//! World coordinates are native pixels; the renderer scales them up.
use vstd::prelude::*;
use vstd::arithmetic::div_mod::{lemma_fundamental_div_mod, lemma_fundamental_div_mod_converse};
use crate::fb::{Fb, blit_frame, axis_fits, cell_fits, fits_i32, blit_ok, lemma_blit_ok};
use crate::sprites::TRANSPARENT;

verus! {

/// A wall tile: `w × h` RGB565 pixels, repeated across a room.
pub struct Theme<'a> {
    pub w: usize,
    pub h: usize,
    pub pixels: &'a [u16],
}

/// A piece of furniture: `w × h` RGB565 pixels at `(x, y)`, where `x` is
/// measured from the left edge of its room and `y` down from the top of the wall.
pub struct Prop<'a> {
    pub x: i32,
    pub y: i32,
    pub w: usize,
    pub h: usize,
    pub pixels: &'a [u16],
}

/// A room: `width` native pixels of its theme's wall, with props.
pub struct Room<'a> {
    pub width: i32,
    pub theme: Theme<'a>,
    pub props: Vec<Prop<'a>>,
}

/// One blit of a draw: the source pixels, their width and height, and the
/// screen position of the top-left corner.
pub type Blit = (Seq<u16>, int, int, int, int);

/// The frame after the blits `ops`, in order, at scale `scale`, transparent
/// pixels skipped and nothing flipped.
pub open spec fn apply_blits(bytes: Seq<u8>, ops: Seq<Blit>, scale: int) -> Seq<u8>
    decreases ops.len(),
{
    if ops.len() == 0 {
        bytes
    } else {
        apply_blits(
            blit_frame(bytes, ops[0].0, ops[0].1, ops[0].2, ops[0].3, ops[0].4, scale, TRANSPARENT, false),
            ops.drop_first(),
            scale,
        )
    }
}

/// The wall tiles of a room from world `tx` up to `x1`, one every `theme.w` pixels.
pub open spec fn tile_blits(theme: Theme, tx: int, x1: int, cam_x: int, wall_y: int, scale: int) -> Seq<Blit>
    decreases if tx < x1 { x1 - tx } else { 0 },
{
    if theme.w >= 1 && tx < x1 {
        seq![(theme.pixels@, theme.w as int, theme.h as int, (tx - cam_x) * scale, wall_y)]
            + tile_blits(theme, tx + theme.w, x1, cam_x, wall_y, scale)
    } else {
        seq![]
    }
}

/// The props of a room whose left edge is at world `room_x0`.
pub open spec fn prop_blits(props: Seq<Prop>, room_x0: int, cam_x: int, wall_y: int, scale: int) -> Seq<Blit>
    decreases props.len(),
{
    if props.len() == 0 {
        seq![]
    } else {
        seq![(
            props[0].pixels@,
            props[0].w as int,
            props[0].h as int,
            (room_x0 + props[0].x - cam_x) * scale,
            wall_y + props[0].y * scale,
        )] + prop_blits(props.drop_first(), room_x0, cam_x, wall_y, scale)
    }
}

/// Whether any part of a room `[room_x0, room_x0 + width)` is in view of a camera
/// showing `[cam_x, cam_x + view_w)`.
pub open spec fn room_in_view(room_x0: int, width: int, cam_x: int, view_w: int) -> bool {
    room_x0 + width > cam_x && room_x0 < cam_x + view_w
}

/// What drawing a room does: its wall, then its props, if it is in view.
pub open spec fn room_blits(room: Room, room_x0: int, cam_x: int, view_w: int, wall_y: int, scale: int) -> Seq<Blit> {
    if room_in_view(room_x0, room.width as int, cam_x, view_w) {
        tile_blits(room.theme, room_x0, room_x0 + room.width, cam_x, wall_y, scale)
            + prop_blits(room.props@, room_x0, cam_x, wall_y, scale)
    } else {
        seq![]
    }
}

/// What drawing the rooms does, the first starting at world `room_x0` and each
/// next one where the previous ends.
pub open spec fn world_blits(rooms: Seq<Room>, room_x0: int, cam_x: int, view_w: int, wall_y: int, scale: int) -> Seq<Blit>
    decreases rooms.len(),
{
    if rooms.len() == 0 {
        seq![]
    } else {
        room_blits(rooms[0], room_x0, cam_x, view_w, wall_y, scale)
            + world_blits(rooms.drop_first(), room_x0 + rooms[0].width, cam_x, view_w, wall_y, scale)
    }
}

/// Every prop of a room is drawn, in order, whether it is wholly in view or
/// not (the blitter clips it): the `k`-th prop blit of a room whose left edge
/// is at world `room_x0` is prop `k`'s pixels with its top-left corner at
/// screen column `(room_x0 + x - cam_x) * scale` and row `wall_y + y * scale`.
pub proof fn lemma_prop_blits(props: Seq<Prop>, room_x0: int, cam_x: int, wall_y: int, scale: int)
    ensures
        prop_blits(props, room_x0, cam_x, wall_y, scale).len() == props.len(),
        forall|k: int|
            0 <= k < props.len() ==> #[trigger] prop_blits(props, room_x0, cam_x, wall_y, scale)[k] == (
                props[k].pixels@,
                props[k].w as int,
                props[k].h as int,
                (room_x0 + props[k].x - cam_x) * scale,
                wall_y + props[k].y * scale,
            ),
    decreases props.len(),
{
    if props.len() > 0 {
        lemma_prop_blits(props.drop_first(), room_x0, cam_x, wall_y, scale);
        assert forall|k: int| 0 < k < props.len() implies props.drop_first()[k - 1] == props[k] by {}
    }
}

/// A wall from world `tx` up to `x1` is tiled left to right with its tile every
/// `theme.w` pixels: as many tiles as it takes to cover the span (the last may
/// overhang), the `j`-th with its top-left corner at screen column
/// `(tx + j * theme.w - cam_x) * scale` and row `wall_y`.
pub proof fn lemma_tile_blits(theme: Theme, tx: int, x1: int, cam_x: int, wall_y: int, scale: int)
    requires
        theme.w >= 1,
    ensures
        tile_blits(theme, tx, x1, cam_x, wall_y, scale).len() == if tx < x1 {
            (x1 - tx + theme.w - 1) / (theme.w as int)
        } else {
            0
        },
        forall|j: int|
            0 <= j < tile_blits(theme, tx, x1, cam_x, wall_y, scale).len() ==> #[trigger] tile_blits(
                theme,
                tx,
                x1,
                cam_x,
                wall_y,
                scale,
            )[j] == (theme.pixels@, theme.w as int, theme.h as int, (tx + j * theme.w - cam_x) * scale, wall_y),
    decreases if tx < x1 { x1 - tx } else { 0 },
{
    if tx < x1 {
        let w = theme.w as int;
        lemma_tile_blits(theme, tx + w, x1, cam_x, wall_y, scale);
        let a = x1 - tx - 1;
        lemma_fundamental_div_mod(a, w);
        assert(a + w == (a / w + 1) * w + a % w) by (nonlinear_arith)
            requires
                a == w * (a / w) + a % w,
        ;
        lemma_fundamental_div_mod_converse(a + w, w, a / w + 1, a % w);
        if tx + w >= x1 {
            lemma_fundamental_div_mod_converse(a, w, 0, a);
        }
        let all = tile_blits(theme, tx, x1, cam_x, wall_y, scale);
        let rest = tile_blits(theme, tx + w, x1, cam_x, wall_y, scale);
        assert forall|j: int| 0 <= j < all.len() implies #[trigger] all[j] == (
            theme.pixels@,
            w,
            theme.h as int,
            (tx + j * w - cam_x) * scale,
            wall_y,
        ) by {
            if j == 0 {
                assert(tx + 0 * w == tx);
            } else {
                assert(all[j] == rest[j - 1]);
                assert(tx + w + (j - 1) * w == tx + j * w) by (nonlinear_arith);
            }
        }
    }
}

/// Drawing a room whose left edge is at world `room_x0`: nothing when its span
/// `[room_x0, room_x0 + width)` misses the camera's `[cam_x, cam_x + view_w)`;
/// otherwise its wall tile across its width, left to right, then every one of
/// its props, in order.
pub proof fn lemma_room_blits(room: Room, room_x0: int, cam_x: int, view_w: int, wall_y: int, scale: int)
    ensures
        !(room_x0 + room.width > cam_x && room_x0 < cam_x + view_w) ==> room_blits(
            room,
            room_x0,
            cam_x,
            view_w,
            wall_y,
            scale,
        ).len() == 0,
        room_x0 + room.width > cam_x && room_x0 < cam_x + view_w && room.theme.w >= 1 ==> ({
            let blits = room_blits(room, room_x0, cam_x, view_w, wall_y, scale);
            let w = room.theme.w as int;
            let n = if room.width > 0 { (room.width + w - 1) / w } else { 0 };
            &&& blits.len() == n + room.props@.len()
            &&& forall|j: int|
                0 <= j < n ==> #[trigger] blits[j] == (
                    room.theme.pixels@,
                    w,
                    room.theme.h as int,
                    (room_x0 + j * w - cam_x) * scale,
                    wall_y,
                )
            &&& forall|k: int|
                0 <= k < room.props@.len() ==> #[trigger] blits[n + k] == (
                    room.props@[k].pixels@,
                    room.props@[k].w as int,
                    room.props@[k].h as int,
                    (room_x0 + room.props@[k].x - cam_x) * scale,
                    wall_y + room.props@[k].y * scale,
                )
        }),
{
    if room_x0 + room.width > cam_x && room_x0 < cam_x + view_w && room.theme.w >= 1 {
        lemma_tile_blits(room.theme, room_x0, room_x0 + room.width, cam_x, wall_y, scale);
        lemma_prop_blits(room.props@, room_x0, cam_x, wall_y, scale);
        let tiles = tile_blits(room.theme, room_x0, room_x0 + room.width, cam_x, wall_y, scale);
        let props = prop_blits(room.props@, room_x0, cam_x, wall_y, scale);
        let n = tiles.len() as int;
        assert forall|k: int| 0 <= k < room.props@.len() implies (tiles + props)[n + k] == props[k] by {}
    }
}

/// The total width of a run of rooms.
pub open spec fn total_width(rooms: Seq<Room>) -> int
    decreases rooms.len(),
{
    if rooms.len() == 0 {
        0
    } else {
        rooms[0].width + total_width(rooms.drop_first())
    }
}

/// The rooms lie side by side: drawing the rooms `a` followed by the rooms `b`,
/// from world `room_x0`, draws `a` from `room_x0` and then `b` from where `a`
/// ends, `room_x0` plus the total width of `a`.
pub proof fn lemma_rooms_side_by_side(
    a: Seq<Room>,
    b: Seq<Room>,
    room_x0: int,
    cam_x: int,
    view_w: int,
    wall_y: int,
    scale: int,
)
    ensures
        world_blits(a + b, room_x0, cam_x, view_w, wall_y, scale) == world_blits(
            a,
            room_x0,
            cam_x,
            view_w,
            wall_y,
            scale,
        ) + world_blits(b, room_x0 + total_width(a), cam_x, view_w, wall_y, scale),
    decreases a.len(),
{
    if a.len() == 0 {
        assert(a + b =~= b);
    } else {
        assert((a + b).drop_first() =~= a.drop_first() + b);
        assert((a + b)[0] == a[0]);
        lemma_rooms_side_by_side(a.drop_first(), b, room_x0 + a[0].width, cam_x, view_w, wall_y, scale);
        let first = room_blits(a[0], room_x0, cam_x, view_w, wall_y, scale);
        let mid = world_blits(a.drop_first(), room_x0 + a[0].width, cam_x, view_w, wall_y, scale);
        let last = world_blits(b, room_x0 + total_width(a), cam_x, view_w, wall_y, scale);
        assert(first + (mid + last) =~= (first + mid) + last);
    }
}

/// Coordinates that the renderer handles: within a million pixels either way.
pub open spec fn small(v: int) -> bool {
    -0x10_0000 <= v <= 0x10_0000
}

/// A sprite of at most a million pixels on a side, its pixels all present.
pub open spec fn sprite_ok(pixels: Seq<u16>, w: int, h: int) -> bool {
    w <= 0x10_0000 && h <= 0x10_0000 && w * h <= pixels.len()
}

/// A prop the renderer can draw.
pub open spec fn prop_ok(p: Prop) -> bool {
    small(p.x as int) && small(p.y as int) && sprite_ok(p.pixels@, p.w as int, p.h as int)
}

/// A room the renderer can draw: its wall tile is at least a pixel wide.
pub open spec fn room_ok(r: Room) -> bool {
    &&& 1 <= r.theme.w
    &&& sprite_ok(r.theme.pixels@, r.theme.w as int, r.theme.h as int)
    &&& forall|j: int| 0 <= j < r.props@.len() ==> prop_ok(#[trigger] r.props@[j])
}

/// The total extent of the rooms: the sum of the absolute room widths.
pub open spec fn span(rooms: Seq<Room>) -> int
    decreases rooms.len(),
{
    if rooms.len() == 0 {
        0
    } else {
        (if rooms[0].width >= 0 { rooms[0].width as int } else { -rooms[0].width }) + span(rooms.drop_first())
    }
}

/// The extent of rooms is never negative.
proof fn lemma_span_nonneg(rooms: Seq<Room>)
    ensures
        span(rooms) >= 0,
    decreases rooms.len(),
{
    if rooms.len() > 0 {
        lemma_span_nonneg(rooms.drop_first());
    }
}

/// Tiling a wall from world `tx` up to `x1` overflows nothing: for every tile,
/// its screen column `(tx - cam_x) * scale`, its blit, and the next `tx`.
pub open spec fn tiles_ok(theme: Theme, tx: int, x1: int, cam_x: int, wall_y: int, scale: int) -> bool
    decreases if tx < x1 { x1 - tx } else { 0 },
{
    if theme.w >= 1 && tx < x1 {
        &&& fits_i32(tx - cam_x)
        &&& fits_i32((tx - cam_x) * scale)
        &&& blit_ok(theme.pixels@, theme.w as int, theme.h as int, (tx - cam_x) * scale, wall_y, scale, TRANSPARENT, false)
        &&& fits_i32(tx + theme.w)
        &&& tiles_ok(theme, tx + theme.w, x1, cam_x, wall_y, scale)
    } else {
        true
    }
}

/// Placing a prop of a room whose left edge is at world `room_x0` overflows
/// nothing: its screen column `(room_x0 + x - cam_x) * scale`, its screen row
/// `wall_y + y * scale`, and its blit.
pub open spec fn prop_draw_ok(p: Prop, room_x0: int, cam_x: int, wall_y: int, scale: int) -> bool {
    &&& fits_i32(room_x0 + p.x)
    &&& fits_i32(room_x0 + p.x - cam_x)
    &&& fits_i32((room_x0 + p.x - cam_x) * scale)
    &&& fits_i32(p.y * scale)
    &&& fits_i32(wall_y + p.y * scale)
    &&& blit_ok(p.pixels@, p.w as int, p.h as int, (room_x0 + p.x - cam_x) * scale, wall_y + p.y * scale, scale, TRANSPARENT, false)
}

/// Drawing a room whose left edge is at world `room_x0` overflows nothing and
/// ends: its right edge fits in `i32`, so does the right edge of the view when
/// it is compared, and a room in view has a wall tile at least a pixel wide
/// (if it is wider than nothing), tiles and props that overflow nothing.
pub open spec fn room_draw_ok(room: Room, room_x0: int, cam_x: int, view_w: int, wall_y: int, scale: int) -> bool {
    let x1 = room_x0 + room.width;
    &&& fits_i32(x1)
    &&& x1 > cam_x ==> fits_i32(cam_x + view_w)
    &&& room_in_view(room_x0, room.width as int, cam_x, view_w) ==> {
        &&& room_x0 < x1 ==> room.theme.w >= 1
        &&& tiles_ok(room.theme, room_x0, x1, cam_x, wall_y, scale)
        &&& forall|j: int| 0 <= j < room.props@.len() ==> prop_draw_ok(#[trigger] room.props@[j], room_x0, cam_x, wall_y, scale)
    }
}

/// Drawing the rooms, the first at world `room_x0` and each next one where the
/// previous ends, overflows nothing and ends: the exact condition under which
/// `draw` runs without an arithmetic overflow.
pub open spec fn draw_ok(rooms: Seq<Room>, room_x0: int, cam_x: int, view_w: int, wall_y: int, scale: int) -> bool
    decreases rooms.len(),
{
    if rooms.len() == 0 {
        true
    } else {
        &&& room_draw_ok(rooms[0], room_x0, cam_x, view_w, wall_y, scale)
        &&& draw_ok(rooms.drop_first(), room_x0 + rooms[0].width, cam_x, view_w, wall_y, scale)
    }
}

/// Blitting in two parts is blitting the whole.
pub proof fn lemma_apply_concat(bytes: Seq<u8>, a: Seq<Blit>, b: Seq<Blit>, scale: int)
    ensures
        apply_blits(bytes, a + b, scale) == apply_blits(apply_blits(bytes, a, scale), b, scale),
    decreases a.len(),
{
    if a.len() == 0 {
        assert(a + b =~= b);
    } else {
        assert((a + b).drop_first() =~= a.drop_first() + b);
        lemma_apply_concat(
            blit_frame(bytes, a[0].0, a[0].1, a[0].2, a[0].3, a[0].4, scale, TRANSPARENT, false),
            a.drop_first(),
            b,
            scale,
        );
    }
}

/// A blit axis of at most a million cells, at most 64 pixels each, starting
/// within 2^29 pixels of the origin, fits in `i32`.
proof fn lemma_axis_fits(d: int, n: int, scale: int)
    requires
        -0x2000_0000 <= d <= 0x2000_0000,
        0 <= n <= 0x10_0000,
        -64 <= scale <= 64,
    ensures
        axis_fits(d, n, scale),
{
    assert forall|s: int| 0 <= s < n implies #[trigger] cell_fits(d, s, scale) by {
        lemma_cell_small(s, scale);
    }
}

/// One cell of such an axis is at most 2^26 pixels from its start.
proof fn lemma_cell_small(s: int, scale: int)
    requires
        0 <= s <= 0x10_0000,
        -64 <= scale <= 64,
    ensures
        -0x400_0000 <= s * scale <= 0x400_0000,
{
    assert(-0x400_0000 <= s * scale <= 0x400_0000) by (nonlinear_arith)
        requires
            0 <= s <= 0x10_0000,
            -64 <= scale <= 64,
    ;
}

/// A product of a coordinate within 2^22 and a scale within 64 stays within 2^28.
proof fn lemma_scaled(a: int, scale: int)
    requires
        -0x40_0000 <= a <= 0x40_0000,
        -64 <= scale <= 64,
    ensures
        -0x1000_0000 <= a * scale <= 0x1000_0000,
{
    assert(-0x1000_0000 <= a * scale <= 0x1000_0000) by (nonlinear_arith)
        requires
            -0x40_0000 <= a <= 0x40_0000,
            -64 <= scale <= 64,
    ;
}


/// Draws the rooms, laid side by side from world x = 0, as seen by a camera
/// whose left edge is at world `cam_x` and which shows `view_native_w` native
/// pixels; the top of the wall art lands at screen row `wall_screen_y` and each
/// native pixel becomes a `scale × scale` block. Rooms out of view are skipped;
/// a room in view gets its wall tiled across its width, then its props.
pub fn draw(
    fb: &mut Fb,
    rooms: &[Room],
    cam_x: i32,
    view_native_w: i32,
    wall_screen_y: i32,
    scale: i32,
)
    requires
        old(fb).wf(),
        draw_ok(rooms@, 0, cam_x as int, view_native_w as int, wall_screen_y as int, scale as int),
    ensures
        final(fb).wf(),
        final(fb)@ == apply_blits(
            old(fb)@,
            world_blits(rooms@, 0, cam_x as int, view_native_w as int, wall_screen_y as int, scale as int),
            scale as int,
        ),
{
    let ghost target = apply_blits(
        fb@,
        world_blits(rooms@, 0, cam_x as int, view_native_w as int, wall_screen_y as int, scale as int),
        scale as int,
    );
    proof {
        assert(rooms@.skip(0) =~= rooms@);
    }
    let mut room_x0: i32 = 0;
    let mut i: usize = 0;
    while i < rooms.len()
        invariant
            fb.wf(),
            i <= rooms@.len(),
            draw_ok(
                rooms@.skip(i as int),
                room_x0 as int,
                cam_x as int,
                view_native_w as int,
                wall_screen_y as int,
                scale as int,
            ),
            apply_blits(
                fb@,
                world_blits(
                    rooms@.skip(i as int),
                    room_x0 as int,
                    cam_x as int,
                    view_native_w as int,
                    wall_screen_y as int,
                    scale as int,
                ),
                scale as int,
            ) == target,
        decreases rooms@.len() - i,
    {
        let room = &rooms[i];
        let ghost rest = world_blits(
            rooms@.skip(i + 1),
            room_x0 + room.width,
            cam_x as int,
            view_native_w as int,
            wall_screen_y as int,
            scale as int,
        );
        proof {
            assert(rooms@.skip(i as int).drop_first() =~= rooms@.skip(i + 1));
            assert(rooms@.skip(i as int)[0] == rooms@[i as int]);
        }
        let room_x1 = room_x0 + room.width;
        let on_screen = room_x1 > cam_x && room_x0 < cam_x + view_native_w;
        if on_screen {
            let theme = &room.theme;
            let tile_w = theme.w as i32;
            let ghost props_then_rest = prop_blits(
                room.props@,
                room_x0 as int,
                cam_x as int,
                wall_screen_y as int,
                scale as int,
            ) + rest;
            proof {
                assert(world_blits(
                    rooms@.skip(i as int),
                    room_x0 as int,
                    cam_x as int,
                    view_native_w as int,
                    wall_screen_y as int,
                    scale as int,
                ) =~= tile_blits(
                    room.theme,
                    room_x0 as int,
                    room_x1 as int,
                    cam_x as int,
                    wall_screen_y as int,
                    scale as int,
                ) + props_then_rest);
            }
            let mut tx = room_x0;
            while tx < room_x1
                invariant
                    fb.wf(),
                    room_x0 <= tx,
                    room_x0 < room_x1 ==> tile_w == theme.w && tile_w >= 1,
                    *theme == room.theme,
                    tiles_ok(
                        *theme,
                        tx as int,
                        room_x1 as int,
                        cam_x as int,
                        wall_screen_y as int,
                        scale as int,
                    ),
                    apply_blits(
                        fb@,
                        tile_blits(
                            *theme,
                            tx as int,
                            room_x1 as int,
                            cam_x as int,
                            wall_screen_y as int,
                            scale as int,
                        ) + props_then_rest,
                        scale as int,
                    ) == target,
                decreases if tx < room_x1 {
                    room_x1 - tx
                } else {
                    0
                },
            {
                let screen_x = (tx - cam_x) * scale;
                proof {
                    let x = tile_blits(
                        *theme,
                        tx + tile_w,
                        room_x1 as int,
                        cam_x as int,
                        wall_screen_y as int,
                        scale as int,
                    ) + props_then_rest;
                    let op: Blit = (theme.pixels@, theme.w as int, theme.h as int, screen_x as int, wall_screen_y as int);
                    assert(tile_blits(
                        *theme,
                        tx as int,
                        room_x1 as int,
                        cam_x as int,
                        wall_screen_y as int,
                        scale as int,
                    ) + props_then_rest =~= seq![op] + x);
                    assert((seq![op] + x).drop_first() =~= x);
                }
                fb.blit_scaled(
                    theme.pixels,
                    theme.w,
                    theme.h,
                    screen_x,
                    wall_screen_y,
                    scale,
                    TRANSPARENT,
                    false,
                );
                tx += tile_w;
            }
            proof {
                assert(tile_blits(
                    *theme,
                    tx as int,
                    room_x1 as int,
                    cam_x as int,
                    wall_screen_y as int,
                    scale as int,
                ) + props_then_rest =~= props_then_rest);
                assert(room.props@.skip(0) =~= room.props@);
            }
            let mut j: usize = 0;
            while j < room.props.len()
                invariant
                    fb.wf(),
                    j <= room.props@.len(),
                    forall|q: int|
                        0 <= q < room.props@.len() ==> prop_draw_ok(
                            #[trigger] room.props@[q],
                            room_x0 as int,
                            cam_x as int,
                            wall_screen_y as int,
                            scale as int,
                        ),
                    apply_blits(
                        fb@,
                        prop_blits(
                            room.props@.skip(j as int),
                            room_x0 as int,
                            cam_x as int,
                            wall_screen_y as int,
                            scale as int,
                        ) + rest,
                        scale as int,
                    ) == target,
                decreases room.props@.len() - j,
            {
                let prop = &room.props[j];
                proof {
                    assert(prop_draw_ok(room.props@[j as int], room_x0 as int, cam_x as int, wall_screen_y as int, scale as int));
                }
                let screen_x = (room_x0 + prop.x - cam_x) * scale;
                let screen_y = wall_screen_y + prop.y * scale;
                proof {
                    let x = prop_blits(
                        room.props@.skip(j + 1),
                        room_x0 as int,
                        cam_x as int,
                        wall_screen_y as int,
                        scale as int,
                    ) + rest;
                    let op: Blit = (prop.pixels@, prop.w as int, prop.h as int, screen_x as int, screen_y as int);
                    assert(room.props@.skip(j as int).drop_first() =~= room.props@.skip(j + 1));
                    assert(room.props@.skip(j as int)[0] == room.props@[j as int]);
                    assert(prop_blits(
                        room.props@.skip(j as int),
                        room_x0 as int,
                        cam_x as int,
                        wall_screen_y as int,
                        scale as int,
                    ) + rest =~= seq![op] + x);
                    assert((seq![op] + x).drop_first() =~= x);
                }
                fb.blit_scaled(
                    prop.pixels,
                    prop.w,
                    prop.h,
                    screen_x,
                    screen_y,
                    scale,
                    TRANSPARENT,
                    false,
                );
                j += 1;
            }
            proof {
                assert(room.props@.skip(j as int) =~= Seq::<Prop>::empty());
                assert(prop_blits(
                    room.props@.skip(j as int),
                    room_x0 as int,
                    cam_x as int,
                    wall_screen_y as int,
                    scale as int,
                ) + rest =~= rest);
            }
        } else {
            proof {
                assert(world_blits(
                    rooms@.skip(i as int),
                    room_x0 as int,
                    cam_x as int,
                    view_native_w as int,
                    wall_screen_y as int,
                    scale as int,
                ) =~= rest);
            }
        }
        room_x0 = room_x1;
        i += 1;
    }
}


/// The widths of the rooms, left to right: living room, kitchen, bathroom.
pub open spec fn room_widths_spec() -> Seq<i32> {
    seq![80i32, 80i32, 80i32]
}

/// The sum of a sequence of widths.
pub open spec fn sum_widths(ws: Seq<i32>) -> int
    decreases ws.len(),
{
    if ws.len() == 0 {
        0
    } else {
        sum_widths(ws.drop_last()) + ws.last()
    }
}

/// The widths of the rooms, left to right.
pub fn room_widths() -> (v: Vec<i32>)
    ensures
        v@ == room_widths_spec(),
{
    vec![80, 80, 80]
}

/// The rooms of the world, left to right: a living room, a kitchen and a
/// bathroom, each with its wall theme and no props yet.
pub fn world<'a>(living: Theme<'a>, kitchen: Theme<'a>, bath: Theme<'a>) -> (rooms: Vec<Room<'a>>)
    ensures
        rooms@.len() == 3,
        forall|i: int| 0 <= i < 3 ==> #[trigger] rooms@[i].width == room_widths_spec()[i],
        forall|i: int| 0 <= i < 3 ==> #[trigger] rooms@[i].props@.len() == 0,
        rooms@[0].theme == living,
        rooms@[1].theme == kitchen,
        rooms@[2].theme == bath,
{
    let widths = room_widths();
    let mut rooms: Vec<Room<'a>> = Vec::new();
    rooms.push(Room { width: widths[0], theme: living, props: Vec::new() });
    rooms.push(Room { width: widths[1], theme: kitchen, props: Vec::new() });
    rooms.push(Room { width: widths[2], theme: bath, props: Vec::new() });
    rooms
}

/// The width of the whole world: the rooms' widths added up.
pub fn world_width() -> (w: i32)
    ensures
        w == sum_widths(room_widths_spec()),
        w == 240,
{
    let widths = room_widths();
    let mut sum: i32 = 0;
    let mut i: usize = 0;
    while i < widths.len()
        invariant
            widths@ == room_widths_spec(),
            i <= widths@.len(),
            sum == sum_widths(widths@.take(i as int)),
            0 <= sum <= 80 * i,
        decreases widths@.len() - i,
    {
        assert(widths@.take(i + 1).drop_last() =~= widths@.take(i as int));
        sum += widths[i];
        i += 1;
    }
    assert(widths@.take(3) =~= widths@);
    proof {
        reveal_with_fuel(sum_widths, 4);
    }
    sum
}


/// The world is as wide as its rooms: three rooms of non-negative widths `ws`
/// (as `world` builds them, for either world) span exactly `sum_widths(ws)`,
/// the width that `world_width` reports, and `draw` walks them left to right
/// over that width.
pub proof fn lemma_world_width_spans_the_rooms(rooms: Seq<Room>, ws: Seq<i32>)
    requires
        rooms.len() == 3,
        ws.len() == 3,
        forall|i: int| 0 <= i < 3 ==> 0 <= #[trigger] ws[i] && rooms[i].width == ws[i],
    ensures
        span(rooms) == sum_widths(ws),
{
    reveal_with_fuel(span, 4);
    reveal_with_fuel(sum_widths, 4);
    assert(rooms.drop_first().drop_first().drop_first().len() == 0);
    assert(ws.drop_last().drop_last().drop_last().len() == 0);
    assert(0 <= ws[0] && 0 <= ws[1] && 0 <= ws[2]);
}

/// Whether the renderer can draw `rooms` at all: every room drawable, and the
/// rooms together at most `0x10_0000` native pixels wide.
pub open spec fn rooms_ok(rooms: Seq<Room>) -> bool {
    &&& forall|i: int| 0 <= i < rooms.len() ==> room_ok(#[trigger] rooms[i])
    &&& span(rooms) <= 0x10_0000
}

/// Rooms that `rooms_drawable` accepts, seen by a camera and a layout within a
/// million pixels, at a scale of at most 64 either way, meet the exact
/// condition of `draw`.
pub proof fn lemma_rooms_ok_draw_ok(rooms: Seq<Room>, cam_x: int, view_w: int, wall_y: int, scale: int)
    requires
        rooms_ok(rooms),
        small(cam_x),
        small(view_w),
        small(wall_y),
        -64 <= scale <= 64,
    ensures
        draw_ok(rooms, 0, cam_x, view_w, wall_y, scale),
{
    lemma_rooms_draw_ok_from(rooms, 0, cam_x, view_w, wall_y, scale);
}

/// `lemma_rooms_ok_draw_ok` for rooms laid from world `room_x0` on.
proof fn lemma_rooms_draw_ok_from(rooms: Seq<Room>, room_x0: int, cam_x: int, view_w: int, wall_y: int, scale: int)
    requires
        forall|i: int| 0 <= i < rooms.len() ==> room_ok(#[trigger] rooms[i]),
        (if room_x0 >= 0 { room_x0 } else { -room_x0 }) + span(rooms) <= 0x10_0000,
        small(cam_x),
        small(view_w),
        small(wall_y),
        -64 <= scale <= 64,
    ensures
        draw_ok(rooms, room_x0, cam_x, view_w, wall_y, scale),
    decreases rooms.len(),
{
    if rooms.len() > 0 {
        let r = rooms[0];
        let x1 = room_x0 + r.width;
        lemma_span_nonneg(rooms.drop_first());
        assert(room_ok(rooms[0]));
        if room_in_view(room_x0, r.width as int, cam_x, view_w) {
            lemma_tiles_ok(r.theme, room_x0, x1, cam_x, wall_y, scale);
            assert forall|j: int| 0 <= j < r.props@.len() implies prop_draw_ok(
                #[trigger] r.props@[j],
                room_x0,
                cam_x,
                wall_y,
                scale,
            ) by {
                assert(prop_ok(r.props@[j]));
                lemma_prop_draw_ok(r.props@[j], room_x0, cam_x, wall_y, scale);
            }
        }
        assert forall|i: int| 0 <= i < rooms.drop_first().len() implies room_ok(#[trigger] rooms.drop_first()[i]) by {
            assert(room_ok(rooms[i + 1]));
        }
        lemma_rooms_draw_ok_from(rooms.drop_first(), x1, cam_x, view_w, wall_y, scale);
    }
}

/// The wall tiles of a drawable room within a million pixels overflow nothing.
proof fn lemma_tiles_ok(theme: Theme, tx: int, x1: int, cam_x: int, wall_y: int, scale: int)
    requires
        1 <= theme.w,
        sprite_ok(theme.pixels@, theme.w as int, theme.h as int),
        -0x10_0000 <= tx <= 0x20_0000,
        small(x1),
        small(cam_x),
        small(wall_y),
        -64 <= scale <= 64,
    ensures
        tiles_ok(theme, tx, x1, cam_x, wall_y, scale),
    decreases if tx < x1 { x1 - tx } else { 0 },
{
    if tx < x1 {
        lemma_scaled(tx - cam_x, scale);
        lemma_axis_fits(wall_y, theme.h as int, scale);
        lemma_axis_fits((tx - cam_x) * scale, theme.w as int, scale);
        lemma_blit_ok(theme.pixels@, theme.w as int, theme.h as int, (tx - cam_x) * scale, wall_y, scale, TRANSPARENT, false);
        lemma_tiles_ok(theme, tx + theme.w, x1, cam_x, wall_y, scale);
    }
}

/// A drawable prop of a room within a million pixels overflows nothing.
proof fn lemma_prop_draw_ok(p: Prop, room_x0: int, cam_x: int, wall_y: int, scale: int)
    requires
        prop_ok(p),
        small(room_x0),
        small(cam_x),
        small(wall_y),
        -64 <= scale <= 64,
    ensures
        prop_draw_ok(p, room_x0, cam_x, wall_y, scale),
{
    lemma_scaled(room_x0 + p.x - cam_x, scale);
    lemma_scaled(p.y as int, scale);
    lemma_axis_fits(wall_y + p.y * scale, p.h as int, scale);
    lemma_axis_fits((room_x0 + p.x - cam_x) * scale, p.w as int, scale);
    lemma_blit_ok(p.pixels@, p.w as int, p.h as int, (room_x0 + p.x - cam_x) * scale, wall_y + p.y * scale, scale, TRANSPARENT, false);
}

/// Whether `pixels` hold a `w × h` sprite of at most a million pixels on a side.
fn sprite_fits(pixels: &[u16], w: usize, h: usize) -> (ok: bool)
    ensures
        ok == sprite_ok(pixels@, w as int, h as int),
{
    if w > 0x10_0000 || h > 0x10_0000 {
        return false;
    }
    assert(w as int * h as int <= 0x10_0000 * 0x10_0000) by (nonlinear_arith)
        requires
            w <= 0x10_0000,
            h <= 0x10_0000,
    ;
    let area: u64 = (w as u64) * (h as u64);
    area <= pixels.len() as u64
}

/// Whether the renderer can draw prop `p`.
fn prop_fits(p: &Prop) -> (ok: bool)
    ensures
        ok == prop_ok(*p),
{
    -0x10_0000 <= p.x && p.x <= 0x10_0000 && -0x10_0000 <= p.y && p.y <= 0x10_0000
        && sprite_fits(p.pixels, p.w, p.h)
}

/// Whether the renderer can draw room `r`.
fn room_fits(r: &Room) -> (ok: bool)
    ensures
        ok == room_ok(*r),
{
    if r.theme.w < 1 || !sprite_fits(r.theme.pixels, r.theme.w, r.theme.h) {
        return false;
    }
    let mut j: usize = 0;
    while j < r.props.len()
        invariant
            j <= r.props@.len(),
            forall|q: int| 0 <= q < j ==> prop_ok(#[trigger] r.props@[q]),
        decreases r.props@.len() - j,
    {
        if !prop_fits(&r.props[j]) {
            return false;
        }
        j += 1;
    }
    true
}

/// Whether the renderer can draw `rooms`: the test to make before `draw`.
pub fn rooms_drawable(rooms: &[Room]) -> (ok: bool)
    ensures
        ok == rooms_ok(rooms@),
{
    let n = rooms.len();
    let mut i: usize = n;
    let mut total: u64 = 0;
    let mut narrow = true;
    while i > 0
        invariant
            n == rooms@.len(),
            i <= n,
            narrow == (span(rooms@.subrange(i as int, n as int)) <= 0x10_0000),
            narrow ==> total == span(rooms@.subrange(i as int, n as int)),
            forall|q: int| i <= q < n ==> room_ok(#[trigger] rooms@[q]),
        decreases i,
    {
        i -= 1;
        assert(rooms@.subrange(i as int, n as int).drop_first() =~= rooms@.subrange(i + 1, n as int));
        proof {
            lemma_span_nonneg(rooms@.subrange(i + 1, n as int));
        }
        if !room_fits(&rooms[i]) {
            return false;
        }
        let w = rooms[i].width;
        let a: u64 = if w >= 0 {
            w as u64
        } else {
            (-(w as i64)) as u64
        };
        if narrow && a <= 0x10_0000 - total {
            total = total + a;
        } else {
            narrow = false;
        }
    }
    assert(rooms@.subrange(0, n as int) =~= rooms@);
    narrow
}

} // verus!
