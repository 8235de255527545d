//! Cutting the cat's animation frames out of its sprite sheet.
use vstd::prelude::*;
use crate::encode::{rgb565_of, to_rgb565};
use crate::raster::{RgbaImage, png_rgba8, decodes_to, decode_png};
use crate::sprites::{Sheet, sheet_row, sheet_frames, sheet_row_spec, sheet_frames_spec};

verus! {

/// Side of one cell of the cat sheet, in pixels.
pub const CELL: u32 = 32;

/// The RGB565 encoding of a pixel given as its four samples.
pub open spec fn pixel_rgb565(p: Seq<u8>) -> u16 {
    rgb565_of(p[0], p[1], p[2], p[3])
}

/// Pixel `k` (row-major within the cell) of frame `f` of the animation in
/// sheet row `row`: frames sit side by side, `CELL` pixels apart.
pub open spec fn frame_pixel(img: RgbaImage, row: int, f: int, k: int) -> u16 {
    pixel_rgb565(img.pixel(f * 32 + k % 32, row * 32 + k / 32))
}

/// The frames of the animation in row `row` of the sheet, each as
/// `CELL × CELL` RGB565 values, row by row.
pub fn anim_frames(img: &RgbaImage, row: u32, frames: u32) -> (r: Vec<Vec<u16>>)
    requires
        img.wf(),
        frames * 32 <= img.width,
        frames > 0 ==> (row + 1) * 32 <= img.height,
    ensures
        r@.len() == frames,
        forall|f: int| 0 <= f < frames ==> (#[trigger] r@[f])@.len() == 1024,
        forall|f: int, k: int|
            0 <= f < frames && 0 <= k < 1024 ==> #[trigger] r@[f]@[k] == frame_pixel(*img, row as int, f, k),
{
    let mut out: Vec<Vec<u16>> = Vec::new();
    let mut f: u32 = 0;
    while f < frames
        invariant
            img.wf(),
            frames * 32 <= img.width,
            frames > 0 ==> (row + 1) * 32 <= img.height,
            f <= frames,
            out@.len() == f,
            forall|g: int| 0 <= g < f ==> (#[trigger] out@[g])@.len() == 1024,
            forall|g: int, k: int|
                0 <= g < f && 0 <= k < 1024 ==> #[trigger] out@[g]@[k] == frame_pixel(*img, row as int, g, k),
        decreases frames - f,
    {
        let x0 = f * CELL;
        let y0 = row * CELL;
        let mut frame: Vec<u16> = Vec::with_capacity(1024);
        let mut y: u32 = 0;
        while y < CELL
            invariant
                img.wf(),
                frames * 32 <= img.width,
                (row + 1) * 32 <= img.height,
                f < frames,
                x0 == f * 32,
                y0 == row * 32,
                y <= 32,
                frame@.len() == 32 * y,
                forall|k: int| 0 <= k < 32 * y ==> #[trigger] frame@[k] == frame_pixel(*img, row as int, f as int, k),
            decreases 32 - y,
        {
            let mut x: u32 = 0;
            while x < CELL
                invariant
                    img.wf(),
                    frames * 32 <= img.width,
                    (row + 1) * 32 <= img.height,
                    f < frames,
                    x0 == f * 32,
                    y0 == row * 32,
                    y < 32,
                    x <= 32,
                    frame@.len() == 32 * y + x,
                    forall|k: int| 0 <= k < 32 * y + x ==> #[trigger] frame@[k] == frame_pixel(*img, row as int, f as int, k),
                decreases 32 - x,
            {
                let p = img.get_pixel(x0 + x, y0 + y);
                let v = to_rgb565(p[0], p[1], p[2], p[3]);
                proof {
                    let k = 32 * y + x;
                    assert(k % 32 == x && k / 32 == y);
                }
                frame.push(v);
                x += 1;
            }
            y += 1;
        }
        out.push(frame);
        f += 1;
    }
    out
}


/// `a` is the animation in row `row` of the sheet, `frames` frames long, each
/// frame as `CELL × CELL` RGB565 values, row by row.
pub open spec fn is_animation(img: RgbaImage, row: int, frames: int, a: Seq<Vec<u16>>) -> bool {
    &&& a.len() == frames
    &&& forall|f: int| 0 <= f < frames ==> (#[trigger] a[f])@.len() == 1024
    &&& forall|f: int, k: int| 0 <= f < frames && 0 <= k < 1024 ==> #[trigger] a[f]@[k] == frame_pixel(img, row, f, k)
}

/// Whether a `w × h` sheet holds every animation: eight frames of 32 pixels
/// across (the longest animations) and ten rows of 32 pixels down.
pub open spec fn holds_all_animations(w: int, h: int) -> bool {
    256 <= w && 320 <= h
}

/// Every animation of the cat sheet in the PNG file `png`, indexed by its row;
/// `None` when the file does not decode or the sheet is too small to hold them.
pub fn animations_from_png(png: &[u8]) -> (r: Option<Vec<Vec<Vec<u16>>>>)
    ensures
        (r is Some) <==> (png_rgba8(png@) matches Some(d) && holds_all_animations(d.0 as int, d.1 as int)),
        r matches Some(all) ==> all@.len() == 10 && exists|img: RgbaImage|
            #[trigger] decodes_to(png@, img) && forall|s: Sheet|
                is_animation(img, sheet_row_spec(s) as int, sheet_frames_spec(s) as int, #[trigger] all@[sheet_row_spec(s) as int]@),
{
    let img = match decode_png(png) {
        Some(i) => i,
        None => return None,
    };
    if img.width < 256 || img.height < 320 {
        return None;
    }
    let order = [
        Sheet::IdleA,
        Sheet::IdleB,
        Sheet::CleanA,
        Sheet::CleanB,
        Sheet::WalkA,
        Sheet::WalkB,
        Sheet::Sleep,
        Sheet::Paw,
        Sheet::Jump,
        Sheet::Scared,
    ];
    assert(forall|j: int| 0 <= j < 10 ==> sheet_row_spec(#[trigger] order@[j]) == j);
    let mut all: Vec<Vec<Vec<u16>>> = Vec::new();
    let mut i: usize = 0;
    while i < 10
        invariant
            img.wf(),
            256 <= img.width,
            320 <= img.height,
            i <= 10,
            all@.len() == i,
            forall|j: int| 0 <= j < 10 ==> sheet_row_spec(#[trigger] order@[j]) == j,
            forall|j: int| 0 <= j < i ==> is_animation(img, j, sheet_frames_spec(order@[j]) as int, #[trigger] all@[j]@),
        decreases 10 - i,
    {
        let s = order[i];
        let frames = sheet_frames(s);
        let a = anim_frames(&img, sheet_row(s), frames);
        all.push(a);
        i += 1;
    }
    assert forall|s: Sheet| is_animation(img, sheet_row_spec(s) as int, sheet_frames_spec(s) as int, #[trigger] all@[sheet_row_spec(s) as int]@) by {
        assert(order@[sheet_row_spec(s) as int] == s) by {
            match s {
                Sheet::IdleA => {},
                Sheet::IdleB => {},
                Sheet::CleanA => {},
                Sheet::CleanB => {},
                Sheet::WalkA => {},
                Sheet::WalkB => {},
                Sheet::Sleep => {},
                Sheet::Paw => {},
                Sheet::Jump => {},
                Sheet::Scared => {},
            }
        }
    }
    assert(decodes_to(png@, img));
    Some(all)
}

} // verus!
