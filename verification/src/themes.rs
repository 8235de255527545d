//! Wall art: four tiles of a theme sheet stacked into one column.
use vstd::prelude::*;
use crate::raster::{RgbaImage, crop_region, blend, is_crop, png_rgba8, decodes_to, decode_png};

verus! {

/// Side of one wall tile, in pixels.
pub const TILE: u32 = 16;

/// The tile of the theme sheet that fills each slot of the wall, top to bottom:
/// plain wall twice, wall without baseboard, floor.
pub open spec fn wall_tile_index(slot: int) -> u32 {
    if slot == 0 || slot == 1 {
        2
    } else if slot == 2 {
        4
    } else {
        5
    }
}

/// The indices of the tiles stacked into the wall, top to bottom.
pub fn wall_tile_indices() -> (v: Vec<u32>)
    ensures
        v@.len() == 4,
        forall|slot: int| 0 <= slot < 4 ==> #[trigger] v@[slot] == wall_tile_index(slot),
{
    vec![2, 2, 4, 5]
}

/// A transparent black pixel.
pub open spec fn clear_pixel() -> Seq<u8> {
    seq![0u8, 0u8, 0u8, 0u8]
}

/// Pixel `(x, y)` of the wall made from a theme sheet: slot `y / 16` holds tile
/// `wall_tile_index(y / 16)` of the sheet, drawn over transparent black; where
/// the sheet is too small to fill the tile the wall stays transparent.
pub open spec fn wall_pixel(theme: RgbaImage, x: int, y: int) -> Seq<u8> {
    let idx = wall_tile_index(y / 16);
    let (cx, cy, cw, ch) = crop_region(theme.width, theme.height, (idx * 16) as u32, 0, 16, 16);
    if x < cw && y % 16 < ch {
        blend(clear_pixel(), theme.pixel(cx + x, cy + y % 16))
    } else {
        clear_pixel()
    }
}

/// Stacks tiles of a theme sheet into a 16 × 64 wall image.
pub fn wall_from_theme(theme: &RgbaImage) -> (wall: RgbaImage)
    requires
        theme.wf(),
    ensures
        wall.wf(),
        wall.width == 16,
        wall.height == 64,
        forall|x: int, y: int| 0 <= x < 16 && 0 <= y < 64 ==> #[trigger] wall.pixel(x, y) == wall_pixel(*theme, x, y),
{
    let indices = wall_tile_indices();
    let mut wall = RgbaImage::new(TILE, TILE * 4);
    assert forall|x: int, y: int| 0 <= x < 16 && 0 <= y < 64 implies #[trigger] wall.pixel(x, y) == clear_pixel() by {
        assert(wall.pixel(x, y) =~= clear_pixel());
    }
    let mut slot: usize = 0;
    while slot < 4
        invariant
            theme.wf(),
            wall.wf(),
            wall.width == 16,
            wall.height == 64,
            slot <= 4,
            indices@.len() == 4,
            forall|s: int| 0 <= s < 4 ==> #[trigger] indices@[s] == wall_tile_index(s),
            forall|x: int, y: int| 0 <= x < 16 && 0 <= y < 64 ==> #[trigger] wall.pixel(x, y) == if y < 16 * slot {
                wall_pixel(*theme, x, y)
            } else {
                clear_pixel()
            },
        decreases 4 - slot,
    {
        let idx = indices[slot];
        let tile = theme.crop(idx * TILE, 0, TILE, TILE);
        let ghost before = wall;
        wall.overlay(&tile, 0, (slot as i64) * (TILE as i64));
        assert forall|x: int, y: int| 0 <= x < 16 && 0 <= y < 64 implies #[trigger] wall.pixel(x, y) == if y < 16 * (slot + 1) {
            wall_pixel(*theme, x, y)
        } else {
            clear_pixel()
        } by {
            assert(before.pixel(x, y) == if y < 16 * slot {
                wall_pixel(*theme, x, y)
            } else {
                clear_pixel()
            });
            if 16 * slot <= y < 16 * (slot + 1) {
                assert(y / 16 == slot);
                if x < tile.width && y - 16 * slot < tile.height {
                    assert(tile.pixel(x, y - 16 * slot) == theme.pixel(
                        crop_region(theme.width, theme.height, (idx * 16) as u32, 0, 16, 16).0 + x,
                        crop_region(theme.width, theme.height, (idx * 16) as u32, 0, 16, 16).1 + (y - 16 * slot),
                    ));
                }
            }
        }
        slot += 1;
    }
    wall
}


/// The wall made from the theme sheet in the PNG file `png`; `None` when the
/// file does not decode.
pub fn wall_from_png(png: &[u8]) -> (r: Option<RgbaImage>)
    ensures
        (r is Some) <==> (png_rgba8(png@) is Some),
        r matches Some(wall) ==> {
            &&& wall.wf()
            &&& wall.width == 16
            &&& wall.height == 64
            &&& exists|theme: RgbaImage|
                #[trigger] decodes_to(png@, theme) && forall|x: int, y: int|
                    0 <= x < 16 && 0 <= y < 64 ==> #[trigger] wall.pixel(x, y) == wall_pixel(theme, x, y)
        },
{
    match decode_png(png) {
        Some(theme) => {
            let wall = wall_from_theme(&theme);
            assert(decodes_to(png@, theme));
            Some(wall)
        },
        None => None,
    }
}


/// The wall is stacked, top to bottom, from tiles D, D, F, G of the theme
/// sheet (indices 2, 2, 4, 5 of A, C, D, E, F, G): plain wall twice, the wall
/// without baseboard, then the floor.
pub proof fn lemma_wall_stack()
    ensures
        wall_tile_index(0) == 2,
        wall_tile_index(1) == 2,
        wall_tile_index(2) == 4,
        wall_tile_index(3) == 5,
{
}

} // verus!
