//! The furnished world: a bedroom, a kitchen and a bathroom, each 160 native
//! pixels wide, with props placed on their walls and floors.
use vstd::prelude::*;
use crate::fb::Fb;
pub use crate::world::{Theme, Prop, Room};
use crate::world::{draw_ok, apply_blits, world_blits, sum_widths};

verus! {

/// The artwork of a prop: `w × h` RGB565 pixels.
pub struct Sprite<'a> {
    pub w: usize,
    pub h: usize,
    pub pixels: &'a [u16],
}

/// Width of every room, in native pixels.
pub const ROOM_W: i32 = 160;
/// Props per room.
pub const PROPS_PER_ROOM: usize = 9;

/// Where prop `i` of room `room` stands: `x` from the left edge of the room,
/// `y` down from the top of the wall.
///
/// Bedroom: bookshelf, medium plant, neon sign, bed, portrait, bedside table,
/// window, chair, small plant. Kitchen: painting, hanging drawer, spatula
/// with holes, spatula, small spatula, knife, counter set, bowl of food,
/// fridge. Bathroom: shower shelf, towel rack, mirror, hanging drawer, toilet
/// paper, bathtub, toilet, sink, trash can.
pub open spec fn prop_position(room: int, i: int) -> (i32, i32) {
    if room == 0 {
        if i == 0 { (2, 13) } else if i == 1 { (36, 32) } else if i == 2 { (56, 8) } else if i == 3 { (54, 32) }
        else if i == 4 { (96, 4) } else if i == 5 { (96, 29) } else if i == 6 { (126, 6) } else if i == 7 { (122, 33) }
        else { (145, 37) }
    } else if room == 1 {
        if i == 0 { (68, 2) } else if i == 1 { (113, 4) } else if i == 2 { (8, 3) } else if i == 3 { (20, 4) }
        else if i == 4 { (32, 6) } else if i == 5 { (44, 4) } else if i == 6 { (0, 23) } else if i == 7 { (80, 39) }
        else { (138, 27) }
    } else {
        if i == 0 { (6, 8) } else if i == 1 { (44, 22) } else if i == 2 { (101, 4) } else if i == 3 { (140, 14) }
        else if i == 4 { (78, 31) } else if i == 5 { (4, 34) } else if i == 6 { (63, 33) } else if i == 7 { (98, 32) }
        else { (145, 34) }
    }
}

/// Where the furniture stands, x from the left edge of its room and y down from
/// the top of the wall (the floor seam is at y = 48), in the order the art is
/// given:
/// - bedroom: bookshelf (2, 13), medium plant (36, 32), neon sign (56, 8),
///   bed (54, 32), portrait (96, 4), bedside table (96, 29), window (126, 6),
///   chair (122, 33), small plant (145, 37);
/// - kitchen: painting (68, 2), hanging drawer (113, 4), spatula with holes
///   (8, 3), spatula (20, 4), small spatula (32, 6), knife (44, 4), counter set
///   (0, 23), bowl of food (80, 39), fridge (138, 27);
/// - bathroom: shower shelf (6, 8), towel rack (44, 22), mirror (101, 4),
///   hanging drawer (140, 14), toilet paper (78, 31), bathtub (4, 34), toilet
///   (63, 33), sink (98, 32), trash can (145, 34).
///
/// Every prop's corner lies inside its room and above the floor seam.
pub proof fn lemma_furniture_layout()
    ensures
        forall|r: int, i: int|
            0 <= r < 3 && 0 <= i < 9 ==> 0 <= (#[trigger] prop_position(r, i)).0 < ROOM_W && 0 <= prop_position(r, i).1 < 48,
        prop_position(0, 0) == (2i32, 13i32),
        prop_position(0, 1) == (36i32, 32i32),
        prop_position(0, 2) == (56i32, 8i32),
        prop_position(0, 3) == (54i32, 32i32),
        prop_position(0, 4) == (96i32, 4i32),
        prop_position(0, 5) == (96i32, 29i32),
        prop_position(0, 6) == (126i32, 6i32),
        prop_position(0, 7) == (122i32, 33i32),
        prop_position(0, 8) == (145i32, 37i32),
        prop_position(1, 0) == (68i32, 2i32),
        prop_position(1, 1) == (113i32, 4i32),
        prop_position(1, 2) == (8i32, 3i32),
        prop_position(1, 3) == (20i32, 4i32),
        prop_position(1, 4) == (32i32, 6i32),
        prop_position(1, 5) == (44i32, 4i32),
        prop_position(1, 6) == (0i32, 23i32),
        prop_position(1, 7) == (80i32, 39i32),
        prop_position(1, 8) == (138i32, 27i32),
        prop_position(2, 0) == (6i32, 8i32),
        prop_position(2, 1) == (44i32, 22i32),
        prop_position(2, 2) == (101i32, 4i32),
        prop_position(2, 3) == (140i32, 14i32),
        prop_position(2, 4) == (78i32, 31i32),
        prop_position(2, 5) == (4i32, 34i32),
        prop_position(2, 6) == (63i32, 33i32),
        prop_position(2, 7) == (98i32, 32i32),
        prop_position(2, 8) == (145i32, 34i32),
{
}

/// The positions of the props of each room, in the order of `prop_position`.
pub fn prop_positions() -> (v: Vec<Vec<(i32, i32)>>)
    ensures
        v@.len() == 3,
        forall|r: int| 0 <= r < 3 ==> (#[trigger] v@[r])@.len() == PROPS_PER_ROOM,
        forall|r: int, i: int| 0 <= r < 3 && 0 <= i < PROPS_PER_ROOM ==> #[trigger] v@[r]@[i] == prop_position(r, i),
{
    let v = vec![
        vec![(2, 13), (36, 32), (56, 8), (54, 32), (96, 4), (96, 29), (126, 6), (122, 33), (145, 37)],
        vec![(68, 2), (113, 4), (8, 3), (20, 4), (32, 6), (44, 4), (0, 23), (80, 39), (138, 27)],
        vec![(6, 8), (44, 22), (101, 4), (140, 14), (78, 31), (4, 34), (63, 33), (98, 32), (145, 34)],
    ];
    assert forall|r: int, i: int| 0 <= r < 3 && 0 <= i < PROPS_PER_ROOM implies #[trigger] v@[r]@[i] == prop_position(r, i) by {
        if r == 0 {
        } else if r == 1 {
        } else {
        }
    }
    v
}

/// The rooms, left to right, from their wall themes and the artwork of their
/// props (in the order of `prop_position`).
pub fn world<'a>(themes: Vec<Theme<'a>>, art: Vec<Vec<Sprite<'a>>>) -> (rooms: Vec<Room<'a>>)
    requires
        themes@.len() == 3,
        art@.len() == 3,
        forall|r: int| 0 <= r < 3 ==> (#[trigger] art@[r])@.len() == PROPS_PER_ROOM,
    ensures
        rooms@.len() == 3,
        forall|r: int| 0 <= r < 3 ==> (#[trigger] rooms@[r]).width == ROOM_W,
        forall|r: int| 0 <= r < 3 ==> (#[trigger] rooms@[r]).theme == themes@[r],
        forall|r: int| 0 <= r < 3 ==> (#[trigger] rooms@[r]).props@.len() == PROPS_PER_ROOM,
        forall|r: int, i: int|
            0 <= r < 3 && 0 <= i < PROPS_PER_ROOM ==> #[trigger] rooms@[r].props@[i] == (Prop {
                x: prop_position(r, i).0,
                y: prop_position(r, i).1,
                w: art@[r]@[i].w,
                h: art@[r]@[i].h,
                pixels: art@[r]@[i].pixels,
            }),
{
    let positions = prop_positions();
    let ghost themes0 = themes@;
    let ghost art0 = art@;
    let mut themes = themes;
    let mut art = art;
    let mut rooms: Vec<Room<'a>> = Vec::new();
    let mut r: usize = 0;
    while r < 3
        invariant
            positions@.len() == 3,
            forall|q: int| 0 <= q < 3 ==> (#[trigger] positions@[q])@.len() == PROPS_PER_ROOM,
            forall|q: int, i: int| 0 <= q < 3 && 0 <= i < PROPS_PER_ROOM ==> #[trigger] positions@[q]@[i] == prop_position(q, i),
            themes0.len() == 3,
            art0.len() == 3,
            forall|q: int| 0 <= q < 3 ==> (#[trigger] art0[q])@.len() == PROPS_PER_ROOM,
            r <= 3,
            themes@ == themes0.skip(r as int),
            art@ == art0.skip(r as int),
            rooms@.len() == r,
            forall|q: int| 0 <= q < r ==> (#[trigger] rooms@[q]).width == ROOM_W,
            forall|q: int| 0 <= q < r ==> (#[trigger] rooms@[q]).theme == themes0[q],
            forall|q: int| 0 <= q < r ==> (#[trigger] rooms@[q]).props@.len() == PROPS_PER_ROOM,
            forall|q: int, i: int|
                0 <= q < r && 0 <= i < PROPS_PER_ROOM ==> #[trigger] rooms@[q].props@[i] == (Prop {
                    x: prop_position(q, i).0,
                    y: prop_position(q, i).1,
                    w: art0[q]@[i].w,
                    h: art0[q]@[i].h,
                    pixels: art0[q]@[i].pixels,
                }),
        decreases 3 - r,
    {
        let theme = themes.remove(0);
        let mut room_art = art.remove(0);
        proof {
            assert(themes0.skip(r as int).remove(0) =~= themes0.skip(r + 1));
            assert(art0.skip(r as int).remove(0) =~= art0.skip(r + 1));
        }
        let ghost room_art0 = room_art@;
        let mut props: Vec<Prop<'a>> = Vec::new();
        let mut i: usize = 0;
        while i < PROPS_PER_ROOM
            invariant
                positions@.len() == 3,
                forall|q: int| 0 <= q < 3 ==> (#[trigger] positions@[q])@.len() == PROPS_PER_ROOM,
                forall|q: int, j: int| 0 <= q < 3 && 0 <= j < PROPS_PER_ROOM ==> #[trigger] positions@[q]@[j] == prop_position(q, j),
                r < 3,
                room_art0 == art0[r as int]@,
                room_art0.len() == PROPS_PER_ROOM,
                i <= PROPS_PER_ROOM,
                room_art@ == room_art0.skip(i as int),
                props@.len() == i,
                forall|j: int|
                    0 <= j < i ==> #[trigger] props@[j] == (Prop {
                        x: prop_position(r as int, j).0,
                        y: prop_position(r as int, j).1,
                        w: room_art0[j].w,
                        h: room_art0[j].h,
                        pixels: room_art0[j].pixels,
                    }),
            decreases PROPS_PER_ROOM - i,
        {
            let s = room_art.remove(0);
            proof {
                assert(room_art0.skip(i as int).remove(0) =~= room_art0.skip(i + 1));
            }
            let (x, y) = positions[r][i];
            props.push(Prop { x, y, w: s.w, h: s.h, pixels: s.pixels });
            i += 1;
        }
        rooms.push(Room { width: ROOM_W, theme, props });
        r += 1;
    }
    rooms
}

/// The widths of the rooms, left to right.
pub open spec fn room_widths_spec() -> Seq<i32> {
    seq![160i32, 160i32, 160i32]
}

/// The width of the whole world: the rooms' widths added up.
pub fn world_width() -> (w: i32)
    ensures
        w == sum_widths(room_widths_spec()),
        w == 480,
{
    let widths: Vec<i32> = vec![ROOM_W, ROOM_W, ROOM_W];
    let mut sum: i32 = 0;
    let mut i: usize = 0;
    while i < widths.len()
        invariant
            widths@ == room_widths_spec(),
            i <= widths@.len(),
            sum == sum_widths(widths@.take(i as int)),
            0 <= sum <= 160 * i,
        decreases widths@.len() - i,
    {
        assert(widths@.take(i + 1).drop_last() =~= widths@.take(i as int));
        sum += widths[i];
        i += 1;
    }
    assert(widths@.take(3) =~= widths@);
    proof {
        reveal_with_fuel(sum_widths, 4);
    }
    sum
}

/// Draws the furnished world as `crate::world::draw` does.
pub fn draw(fb: &mut Fb, rooms: &[Room], cam_x: i32, view_native_w: i32, wall_screen_y: i32, scale: i32)
    requires
        old(fb).wf(),
        draw_ok(rooms@, 0, cam_x as int, view_native_w as int, wall_screen_y as int, scale as int),
    ensures
        final(fb).wf(),
        final(fb)@ == apply_blits(
            old(fb)@,
            world_blits(rooms@, 0, cam_x as int, view_native_w as int, wall_screen_y as int, scale as int),
            scale as int,
        ),
{
    crate::world::draw(fb, rooms, cam_x, view_native_w, wall_screen_y, scale)
}

} // verus!
