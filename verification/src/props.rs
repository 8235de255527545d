//! Props cut from the furniture sheets, trimmed to their artwork.
use vstd::prelude::*;
use crate::raster::{RgbaImage, is_crop, png_rgba8, decodes_to, decode_png, sample_index, lemma_pixel_in_bounds};
use vstd::arithmetic::div_mod::lemma_fundamental_div_mod;

verus! {

/// Side of one cell of a furniture sheet, in pixels.
pub const CELL: u32 = 64;

/// Whether pixel `(x, y)` of an image is opaque: alpha at least 128.
pub open spec fn opaque(img: RgbaImage, x: int, y: int) -> bool {
    0 <= x < img.width && 0 <= y < img.height && img.pixel(x, y)[3] >= 128
}

/// Whether the image has an opaque pixel.
pub open spec fn has_opaque(img: RgbaImage) -> bool {
    exists|x: int, y: int| #[trigger] opaque(img, x, y)
}

/// `[x0, x1] × [y0, y1]` is the bounding box of the opaque pixels: every one
/// of them lies inside, and each of the four edges touches one.
pub open spec fn is_bbox(img: RgbaImage, x0: int, y0: int, x1: int, y1: int) -> bool {
    &&& forall|x: int, y: int| #[trigger] opaque(img, x, y) ==> x0 <= x <= x1 && y0 <= y <= y1
    &&& exists|y: int| #[trigger] opaque(img, x0, y)
    &&& exists|y: int| #[trigger] opaque(img, x1, y)
    &&& exists|x: int| #[trigger] opaque(img, x, y0)
    &&& exists|x: int| #[trigger] opaque(img, x, y1)
}

/// `r` is `img` cut down to `[x0, x1] × [y0, y1]`.
pub open spec fn is_cut(img: RgbaImage, r: RgbaImage, x0: int, y0: int, x1: int, y1: int) -> bool {
    &&& r.width == x1 - x0 + 1
    &&& r.height == y1 - y0 + 1
    &&& forall|i: int, j: int|
        0 <= i < r.width && 0 <= j < r.height ==> #[trigger] r.pixel(i, j) == img.pixel(x0 + i, y0 + j)
}

/// `r` is `img` trimmed to its opaque pixels.
pub open spec fn is_trimmed(img: RgbaImage, r: RgbaImage) -> bool {
    &&& r.wf()
    &&& !has_opaque(img) ==> r.width == 1 && r.height == 1 && r.data@ == seq![0u8, 0u8, 0u8, 0u8]
    &&& has_opaque(img) ==> exists|x0: int, y0: int, x1: int, y1: int|
        is_bbox(img, x0, y0, x1, y1) && #[trigger] is_cut(img, r, x0, y0, x1, y1)
}

/// Cuts an image down to the bounding box of its opaque pixels; an image with
/// no opaque pixel becomes a single transparent black pixel.
pub fn trim_transparent(img: &RgbaImage) -> (r: RgbaImage)
    requires
        img.wf(),
    ensures
        is_trimmed(*img, r),
{
    let (w, h) = img.dimensions();
    let mut min_x = w;
    let mut min_y = h;
    let mut max_x: u32 = 0;
    let mut max_y: u32 = 0;
    let mut any = false;
    // Opaque pixels that touch the four edges of the box found so far.
    let ghost mut at_min_x: (int, int) = (0, 0);
    let ghost mut at_max_x: (int, int) = (0, 0);
    let ghost mut at_min_y: (int, int) = (0, 0);
    let ghost mut at_max_y: (int, int) = (0, 0);
    let mut y: u32 = 0;
    while y < h
        invariant
            img.wf(),
            w == img.width,
            h == img.height,
            y <= h,
            forall|px: int, py: int| #[trigger] opaque(*img, px, py) && py < y ==> any && min_x <= px
                <= max_x && min_y <= py <= max_y,
            !any ==> min_x == w && min_y == h && max_x == 0 && max_y == 0,
            any ==> opaque(*img, at_min_x.0, at_min_x.1) && at_min_x.0 == min_x,
            any ==> opaque(*img, at_max_x.0, at_max_x.1) && at_max_x.0 == max_x,
            any ==> opaque(*img, at_min_y.0, at_min_y.1) && at_min_y.1 == min_y,
            any ==> opaque(*img, at_max_y.0, at_max_y.1) && at_max_y.1 == max_y,
        decreases h - y,
    {
        let mut x: u32 = 0;
        while x < w
            invariant
                img.wf(),
                w == img.width,
                h == img.height,
                y < h,
                x <= w,
                forall|px: int, py: int| #[trigger] opaque(*img, px, py) && (py < y || (py == y && px
                    < x)) ==> any && min_x <= px <= max_x && min_y <= py <= max_y,
                !any ==> min_x == w && min_y == h && max_x == 0 && max_y == 0,
                any ==> opaque(*img, at_min_x.0, at_min_x.1) && at_min_x.0 == min_x,
                any ==> opaque(*img, at_max_x.0, at_max_x.1) && at_max_x.0 == max_x,
                any ==> opaque(*img, at_min_y.0, at_min_y.1) && at_min_y.1 == min_y,
                any ==> opaque(*img, at_max_y.0, at_max_y.1) && at_max_y.1 == max_y,
            decreases w - x,
        {
            if img.get_pixel(x, y)[3] >= 128 {
                assert(opaque(*img, x as int, y as int));
                let ghost was_any = any;
                let ghost (old_min_x, old_min_y, old_max_x, old_max_y) = (min_x, min_y, max_x, max_y);
                any = true;
                min_x = if x < min_x { x } else { min_x };
                min_y = if y < min_y { y } else { min_y };
                max_x = if x > max_x { x } else { max_x };
                max_y = if y > max_y { y } else { max_y };
                proof {
                    if x < old_min_x {
                        at_min_x = (x as int, y as int);
                    }
                    if y < old_min_y {
                        at_min_y = (x as int, y as int);
                    }
                    if !was_any || x > old_max_x {
                        at_max_x = (x as int, y as int);
                    }
                    if !was_any || y > old_max_y {
                        at_max_y = (x as int, y as int);
                    }
                }
            }
            x += 1;
        }
        y += 1;
    }
    if !any {
        let r = RgbaImage::new(1, 1);
        assert(r.data@ =~= seq![0u8, 0u8, 0u8, 0u8]);
        return r;
    }
    let r = img.crop(min_x, min_y, max_x - min_x + 1, max_y - min_y + 1);
    assert(is_bbox(*img, min_x as int, min_y as int, max_x as int, max_y as int));
    assert(is_cut(*img, r, min_x as int, min_y as int, max_x as int, max_y as int));
    r
}


/// Two images of one size with the same pixels hold the same samples.
proof fn lemma_same_pixels_same_samples(a: RgbaImage, b: RgbaImage)
    requires
        a.wf(),
        b.wf(),
        a.width == b.width,
        a.height == b.height,
        forall|x: int, y: int| 0 <= x < a.width && 0 <= y < a.height ==> #[trigger] a.pixel(x, y) == b.pixel(x, y),
    ensures
        a.data@ == b.data@,
{
    let w = a.width as int;
    let h = a.height as int;
    assert forall|k: int| 0 <= k < a.data@.len() implies a.data@[k] == b.data@[k] by {
        let p = k / 4;
        let c = k % 4;
        lemma_fundamental_div_mod(k, 4);
        assert(w > 0) by (nonlinear_arith)
            requires
                0 <= k < 4 * w * h,
                w >= 0,
                h >= 0,
        ;
        lemma_fundamental_div_mod(p, w);
        let x = p % w;
        let y = p / w;
        assert(0 <= y < h && sample_index(w, x, y) == 4 * p) by (nonlinear_arith)
            requires
                p == w * y + x,
                0 <= x < w,
                0 <= p,
                k == 4 * p + c,
                0 <= c < 4,
                k < 4 * w * h,
                sample_index(w, x, y) == 4 * (y * w + x),
        ;
        lemma_pixel_in_bounds(w, h, x, y);
        assert(a.pixel(x, y)[c] == a.data@[k]);
        assert(b.pixel(x, y)[c] == b.data@[k]);
    }
    assert(a.data@ =~= b.data@);
}

/// Trimming is done once: an image trimmed to its opaque pixels trims to
/// itself (the same size and the same samples).
pub proof fn lemma_trim_twice(img: RgbaImage, r: RgbaImage, r2: RgbaImage)
    requires
        is_trimmed(img, r),
        is_trimmed(r, r2),
    ensures
        r2.width == r.width,
        r2.height == r.height,
        r2.data@ == r.data@,
{
    if !has_opaque(img) {
        assert forall|x: int, y: int| !opaque(r, x, y) by {
            if opaque(r, x, y) {
                assert(r.pixel(0, 0)[3] == r.data@[3]);
            }
        }
        assert(!has_opaque(r));
        assert(r2.data@ =~= r.data@);
    } else {
        let (x0, y0, x1, y1) = choose|x0: int, y0: int, x1: int, y1: int|
            is_bbox(img, x0, y0, x1, y1) && #[trigger] is_cut(img, r, x0, y0, x1, y1);
        let ya = choose|y: int| #[trigger] opaque(img, x0, y);
        let yb = choose|y: int| #[trigger] opaque(img, x1, y);
        let xa = choose|x: int| #[trigger] opaque(img, x, y0);
        let xb = choose|x: int| #[trigger] opaque(img, x, y1);
        assert(r.pixel(0, ya - y0) == img.pixel(x0, ya));
        assert(r.pixel(x1 - x0, yb - y0) == img.pixel(x1, yb));
        assert(r.pixel(xa - x0, 0) == img.pixel(xa, y0));
        assert(r.pixel(xb - x0, y1 - y0) == img.pixel(xb, y1));
        assert(opaque(r, 0, ya - y0));
        assert(opaque(r, x1 - x0, yb - y0));
        assert(opaque(r, xa - x0, 0));
        assert(opaque(r, xb - x0, y1 - y0));
        assert(has_opaque(r));
        let (a0, b0, a1, b1) = choose|a0: int, b0: int, a1: int, b1: int|
            is_bbox(r, a0, b0, a1, b1) && #[trigger] is_cut(r, r2, a0, b0, a1, b1);
        let ta = choose|y: int| #[trigger] opaque(r, a0, y);
        let tb = choose|y: int| #[trigger] opaque(r, a1, y);
        let tc = choose|x: int| #[trigger] opaque(r, x, b0);
        let td = choose|x: int| #[trigger] opaque(r, x, b1);
        assert(a0 == 0 && b0 == 0 && a1 == r.width - 1 && b1 == r.height - 1);
        assert forall|x: int, y: int| 0 <= x < r2.width && 0 <= y < r2.height implies #[trigger] r2.pixel(x, y)
            == r.pixel(x, y) by {}
        lemma_same_pixels_same_samples(r2, r);
    }
}

} // verus!

verus! {

/// `r` is the prop in cell `(col, row)` of `sheet`: the cell cut out, then
/// trimmed to its artwork.
pub open spec fn is_prop_cell(sheet: RgbaImage, col: u32, row: u32, r: RgbaImage) -> bool {
    exists|cell: RgbaImage|
        is_crop(sheet, (col * CELL) as u32, (row * CELL) as u32, CELL, CELL, cell)
            && #[trigger] is_trimmed(cell, r)
}

/// The prop in cell `(col, row)` of a furniture sheet, trimmed to its artwork.
pub fn prop_cell(sheet: &RgbaImage, col: u32, row: u32) -> (r: RgbaImage)
    requires
        sheet.wf(),
        col * CELL <= u32::MAX,
        row * CELL <= u32::MAX,
    ensures
        is_prop_cell(*sheet, col, row, r),
{
    let cell = sheet.crop(col * CELL, row * CELL, CELL, CELL);
    let r = trim_transparent(&cell);
    assert(is_trimmed(cell, r));
    r
}


/// The props in cells `cells` (column, row) of the furniture sheet in the PNG
/// file `png`, each trimmed to its artwork; `None` when the file does not
/// decode.
pub fn props_from_png(png: &[u8], cells: &[(u32, u32)]) -> (r: Option<Vec<RgbaImage>>)
    requires
        forall|k: int| 0 <= k < cells@.len() ==> (#[trigger] cells@[k]).0 * CELL <= u32::MAX && cells@[k].1 * CELL <= u32::MAX,
    ensures
        (r is Some) <==> (png_rgba8(png@) is Some),
        r matches Some(v) ==> v@.len() == cells@.len() && exists|sheet: RgbaImage|
            #[trigger] decodes_to(png@, sheet) && forall|k: int|
                0 <= k < cells@.len() ==> is_prop_cell(sheet, cells@[k].0, cells@[k].1, #[trigger] v@[k]),
{
    let sheet = match decode_png(png) {
        Some(s) => s,
        None => return None,
    };
    let mut out: Vec<RgbaImage> = Vec::new();
    let mut k: usize = 0;
    while k < cells.len()
        invariant
            sheet.wf(),
            k <= cells@.len(),
            out@.len() == k,
            forall|q: int| 0 <= q < cells@.len() ==> (#[trigger] cells@[q]).0 * CELL <= u32::MAX && cells@[q].1 * CELL <= u32::MAX,
            forall|q: int| 0 <= q < k ==> is_prop_cell(sheet, cells@[q].0, cells@[q].1, #[trigger] out@[q]),
        decreases cells@.len() - k,
    {
        let (col, row) = cells[k];
        let r = prop_cell(&sheet, col, row);
        out.push(r);
        k += 1;
    }
    assert(decodes_to(png@, sheet));
    Some(out)
}

} // verus!
