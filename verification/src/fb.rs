//! The 240×240 RGB565 framebuffer, big-endian, as the panel wants it.
use vstd::prelude::*;
use vstd::arithmetic::div_mod::{lemma_fundamental_div_mod, lemma_fundamental_div_mod_converse};

verus! {

/// Width of the screen in pixels.
pub const W: usize = 240;
/// Height of the screen in pixels.
pub const H: usize = 240;
/// Size of the framebuffer in bytes: two per pixel.
pub const FB_LEN: usize = W * H * 2;
/// Bytes in one screen row.
pub const ROW_BYTES: usize = W * 2;

/// The high byte of an RGB565 value, sent first.
pub open spec fn hi_byte(c: u16) -> u8 {
    (c / 256) as u8
}

/// The low byte of an RGB565 value, sent second.
pub open spec fn lo_byte(c: u16) -> u8 {
    (c % 256) as u8
}

/// The two bytes of a colour as the framebuffer stores them.
pub open spec fn color_bytes(c: u16) -> (u8, u8) {
    (hi_byte(c), lo_byte(c))
}

/// The framebuffer holds each colour high byte first: reading its two bytes
/// back big-endian gives the colour.
pub proof fn lemma_color_bytes_big_endian(c: u16)
    ensures
        color_bytes(c).0 * 256 + color_bytes(c).1 == c,
{
}

/// The offset of the first byte of screen pixel `(px, py)`.
pub open spec fn pixel_offset(px: int, py: int) -> int {
    2 * (py * 240 + px)
}

/// Whether `(px, py)` lies on the screen.
pub open spec fn on_screen(px: int, py: int) -> bool {
    0 <= px < W && 0 <= py < H
}

/// The two bytes that hold screen pixel `(px, py)`.
pub open spec fn pixel_bytes(bytes: Seq<u8>, px: int, py: int) -> (u8, u8) {
    (bytes[pixel_offset(px, py)], bytes[pixel_offset(px, py) + 1])
}

/// The two bytes of the `k`-th pixel in row-major order.
pub open spec fn pair_at(bytes: Seq<u8>, k: int) -> (u8, u8) {
    (bytes[2 * k], bytes[2 * k + 1])
}


/// Whether `v` is representable as an `i32`.
pub open spec fn fits_i32(v: int) -> bool {
    i32::MIN <= v <= i32::MAX
}

/// Cell `s` of a blit axis that starts at `d` with cells `scale` wide has its
/// offset, its start and its end representable as `i32`.
pub open spec fn cell_fits(d: int, s: int, scale: int) -> bool {
    fits_i32(s * scale) && fits_i32(d + s * scale) && fits_i32(d + s * scale + scale)
}

/// Every cell `s < n` of a blit axis fits in `i32`.
pub open spec fn axis_fits(d: int, n: int, scale: int) -> bool {
    forall|s: int| 0 <= s < n ==> #[trigger] cell_fits(d, s, scale)
}

/// Whether row `sy` of a blit, drawn from screen row `dy` with cells `scale`
/// high, lands on the screen (its cell, clipped to the screen, is not empty).
pub open spec fn row_on_screen(dy: int, sy: int, scale: int) -> bool {
    let y0 = dy + sy * scale;
    (if y0 > 0 { y0 } else { 0 }) < (if y0 + scale < H { y0 + scale } else { H as int })
}

/// The source pixel a blit reads for column `sx` of row `sy`.
pub open spec fn read_index(src_w: int, sy: int, sx: int, flip_x: bool) -> int {
    sy * src_w + if flip_x { src_w - 1 - sx } else { sx }
}

/// The exact condition under which `Fb::blit_scaled` overflows nothing and reads
/// within its source: the sides fit in `i32`; every row's cell fits in `i32`;
/// every row that lands on the screen is present in the source; and every
/// column that such a row draws (its source pixel is not `transparent`) has a
/// cell that fits in `i32`.
pub open spec fn blit_ok(
    src: Seq<u16>,
    src_w: int,
    src_h: int,
    dx: int,
    dy: int,
    scale: int,
    transparent: u16,
    flip_x: bool,
) -> bool {
    &&& src_w <= i32::MAX
    &&& src_h <= i32::MAX
    &&& axis_fits(dy, src_h, scale)
    &&& forall|sy: int| 0 <= sy < src_h && #[trigger] row_on_screen(dy, sy, scale) ==> (sy + 1) * src_w <= src.len()
    &&& forall|sy: int, sx: int|
        #![trigger read_index(src_w, sy, sx, flip_x)]
        0 <= sy < src_h && row_on_screen(dy, sy, scale) && 0 <= sx < src_w
            && src[read_index(src_w, sy, sx, flip_x)] != transparent ==> cell_fits(dx, sx, scale)
}

/// A blit whose source holds all its pixels and whose rows and columns all fit
/// in `i32` is one that `blit_scaled` takes.
pub proof fn lemma_blit_ok(
    src: Seq<u16>,
    src_w: int,
    src_h: int,
    dx: int,
    dy: int,
    scale: int,
    transparent: u16,
    flip_x: bool,
)
    requires
        0 <= src_w <= i32::MAX,
        0 <= src_h <= i32::MAX,
        src_w * src_h <= src.len(),
        axis_fits(dy, src_h, scale),
        scale > 0 ==> axis_fits(dx, src_w, scale),
    ensures
        blit_ok(src, src_w, src_h, dx, dy, scale, transparent, flip_x),
{
    assert forall|sy: int| 0 <= sy < src_h && #[trigger] row_on_screen(dy, sy, scale) implies (sy + 1) * src_w
        <= src.len() by {
        assert((sy + 1) * src_w <= src_h * src_w) by (nonlinear_arith)
            requires
                0 <= sy < src_h,
                0 <= src_w,
        ;
        assert(src_h * src_w == src_w * src_h) by (nonlinear_arith);
    }
}

/// Whether screen pixel `(px, py)` lies under the `src_w × src_h` image drawn with
/// its top-left corner at `(dx, dy)`, each source pixel becoming a `scale × scale` block.
pub open spec fn blit_covers(
    src_w: int,
    src_h: int,
    dx: int,
    dy: int,
    scale: int,
    px: int,
    py: int,
) -> bool {
    &&& scale > 0
    &&& dx <= px
    &&& dy <= py
    &&& (px - dx) / scale < src_w
    &&& (py - dy) / scale < src_h
}

/// The source pixel that a blit draws at a covered screen pixel; with `flip_x`
/// each source row is read right to left.
pub open spec fn blit_source(
    src: Seq<u16>,
    src_w: int,
    dx: int,
    dy: int,
    scale: int,
    flip_x: bool,
    px: int,
    py: int,
) -> u16 {
    let sx = (px - dx) / scale;
    let sy = (py - dy) / scale;
    src[sy * src_w + if flip_x {
        src_w - 1 - sx
    } else {
        sx
    }]
}

/// A screen pixel after a blit: the colour of the source pixel drawn over it,
/// unless it is not covered or that source pixel is `transparent`.
pub open spec fn blit_pixel(
    old: Seq<u8>,
    src: Seq<u16>,
    src_w: int,
    src_h: int,
    dx: int,
    dy: int,
    scale: int,
    transparent: u16,
    flip_x: bool,
    px: int,
    py: int,
) -> (u8, u8) {
    if blit_covers(src_w, src_h, dx, dy, scale, px, py) && blit_source(
        src,
        src_w,
        dx,
        dy,
        scale,
        flip_x,
        px,
        py,
    ) != transparent {
        color_bytes(blit_source(src, src_w, dx, dy, scale, flip_x, px, py))
    } else {
        pixel_bytes(old, px, py)
    }
}

/// A screen pixel once the source pixels before row `rows`, column `cols`
/// (in row-major order) have been drawn.
spec fn blit_partial(
    old: Seq<u8>,
    src: Seq<u16>,
    src_w: int,
    src_h: int,
    dx: int,
    dy: int,
    scale: int,
    transparent: u16,
    flip_x: bool,
    px: int,
    py: int,
    rows: int,
    cols: int,
) -> (u8, u8) {
    if blit_covers(src_w, src_h, dx, dy, scale, px, py) && ((py - dy) / scale < rows || ((py
        - dy) / scale == rows && (px - dx) / scale < cols)) && blit_source(
        src,
        src_w,
        dx,
        dy,
        scale,
        flip_x,
        px,
        py,
    ) != transparent {
        color_bytes(blit_source(src, src_w, dx, dy, scale, flip_x, px, py))
    } else {
        pixel_bytes(old, px, py)
    }
}

/// The clipped span `[lo, hi)` of cell `s` on an axis of length `bound` holds exactly
/// the coordinates that fall into that cell.
proof fn lemma_clipped_cell(d: int, s: int, scale: int, bound: int, lo: int, hi: int, p: int)
    requires
        scale > 0,
        s >= 0,
        lo == if d + s * scale > 0 {
            d + s * scale
        } else {
            0
        },
        hi == if d + s * scale + scale < bound {
            d + s * scale + scale
        } else {
            bound
        },
        0 <= p < bound,
    ensures
        (lo <= p < hi) <==> (d <= p && (p - d) / scale == s),
{
    lemma_cell(p - d, scale, s);
    assert(s * scale >= 0) by (nonlinear_arith)
        requires
            s >= 0,
            scale > 0,
    ;
}

/// Row `sy` of a `src_w`-wide image ends within `src_w * src_h` samples.
proof fn lemma_row_in_bounds(sy: int, sx: int, src_w: int, src_h: int)
    requires
        0 <= sy < src_h,
        0 <= sx < src_w,
    ensures
        0 <= sy * src_w,
        sy * src_w + sx < src_w * src_h,
{
    assert(0 <= sy * src_w) by (nonlinear_arith)
        requires
            0 <= sy,
            0 <= src_w,
    ;
    assert(sy * src_w + sx < src_w * src_h) by (nonlinear_arith)
        requires
            0 <= sy < src_h,
            0 <= sx < src_w,
    ;
}


/// The colour of the last of `pixels` written at `(px, py)`, if any.
pub open spec fn last_write(pixels: Seq<(i32, i32, u16)>, px: int, py: int) -> Option<u16>
    decreases pixels.len(),
{
    if pixels.len() == 0 {
        None
    } else if pixels.last().0 == px && pixels.last().1 == py {
        Some(pixels.last().2)
    } else {
        last_write(pixels.drop_last(), px, py)
    }
}


/// The whole frame after a blit: every pixel as `blit_pixel` gives it.
pub open spec fn blit_frame(
    old: Seq<u8>,
    src: Seq<u16>,
    src_w: int,
    src_h: int,
    dx: int,
    dy: int,
    scale: int,
    transparent: u16,
    flip_x: bool,
) -> Seq<u8> {
    Seq::new(
        FB_LEN as nat,
        |i: int|
            {
                let p = blit_pixel(
                    old,
                    src,
                    src_w,
                    src_h,
                    dx,
                    dy,
                    scale,
                    transparent,
                    flip_x,
                    (i / 2) % 240,
                    (i / 2) / 240,
                );
                if i % 2 == 0 {
                    p.0
                } else {
                    p.1
                }
            },
    )
}

/// A frame is determined by its pixels: one that holds the pixels a blit
/// gives is the frame `blit_frame` describes.
pub proof fn lemma_blit_frame(
    old: Seq<u8>,
    new: Seq<u8>,
    src: Seq<u16>,
    src_w: int,
    src_h: int,
    dx: int,
    dy: int,
    scale: int,
    transparent: u16,
    flip_x: bool,
)
    requires
        new.len() == FB_LEN,
        forall|px: int, py: int|
            on_screen(px, py) ==> #[trigger] pixel_bytes(new, px, py) == blit_pixel(
                old,
                src,
                src_w,
                src_h,
                dx,
                dy,
                scale,
                transparent,
                flip_x,
                px,
                py,
            ),
    ensures
        new == blit_frame(old, src, src_w, src_h, dx, dy, scale, transparent, flip_x),
{
    let f = blit_frame(old, src, src_w, src_h, dx, dy, scale, transparent, flip_x);
    assert forall|i: int| 0 <= i < FB_LEN implies new[i] == f[i] by {
        let px = (i / 2) % 240;
        let py = (i / 2) / 240;
        assert(on_screen(px, py));
        assert(pixel_offset(px, py) == i - i % 2);
        let p = pixel_bytes(new, px, py);
    }
    assert(new =~= f);
}


/// A `w × h` image with each row reversed.
pub open spec fn mirrored(src: Seq<u16>, w: int, h: int) -> Seq<u16> {
    Seq::new((w * h) as nat, |i: int| src[(i / w) * w + (w - 1 - i % w)])
}

/// Drawing an image flipped is drawing its mirror image unflipped: a cat facing
/// left is the cat facing right, seen in a mirror.
pub proof fn lemma_blit_flip_mirrors(
    old: Seq<u8>,
    src: Seq<u16>,
    src_w: int,
    src_h: int,
    dx: int,
    dy: int,
    scale: int,
    transparent: u16,
)
    requires
        0 < src_w,
        0 <= src_h,
        src_w * src_h <= src.len(),
    ensures
        blit_frame(old, src, src_w, src_h, dx, dy, scale, transparent, true) == blit_frame(
            old,
            mirrored(src, src_w, src_h),
            src_w,
            src_h,
            dx,
            dy,
            scale,
            transparent,
            false,
        ),
{
    let m = mirrored(src, src_w, src_h);
    assert forall|px: int, py: int| blit_covers(src_w, src_h, dx, dy, scale, px, py) implies
        #[trigger] blit_source(src, src_w, dx, dy, scale, true, px, py) == blit_source(
            m,
            src_w,
            dx,
            dy,
            scale,
            false,
            px,
            py,
        ) by {
        let sx = (px - dx) / scale;
        let sy = (py - dy) / scale;
        assert(0 <= sx && 0 <= sy) by (nonlinear_arith)
            requires
                scale > 0,
                dx <= px,
                dy <= py,
                sx == (px - dx) / scale,
                sy == (py - dy) / scale,
        ;
        let i = sy * src_w + sx;
        lemma_row_in_bounds(sy, sx, src_w, src_h);
        assert(0 <= i < src_w * src_h);
        lemma_fundamental_div_mod_converse(i, src_w, sy, sx);
        assert(m[i] == src[sy * src_w + (src_w - 1 - sx)]);
    }
    let a = blit_frame(old, src, src_w, src_h, dx, dy, scale, transparent, true);
    let b = blit_frame(old, m, src_w, src_h, dx, dy, scale, transparent, false);
    assert forall|i: int| 0 <= i < FB_LEN implies a[i] == b[i] by {
        let px = (i / 2) % 240;
        let py = (i / 2) / 240;
        if blit_covers(src_w, src_h, dx, dy, scale, px, py) {
            assert(blit_source(src, src_w, dx, dy, scale, true, px, py) == blit_source(
                m,
                src_w,
                dx,
                dy,
                scale,
                false,
                px,
                py,
            ));
        }
    }
    assert(a =~= b);
}

/// The transparent value is invisible: drawing an image whose every pixel is
/// `transparent` leaves the frame as it was, wherever and however it is drawn.
pub proof fn lemma_blit_transparent_is_invisible(
    old: Seq<u8>,
    src: Seq<u16>,
    src_w: int,
    src_h: int,
    dx: int,
    dy: int,
    scale: int,
    transparent: u16,
    flip_x: bool,
)
    requires
        old.len() == FB_LEN,
        0 <= src_w,
        0 <= src_h,
        src_w * src_h <= src.len(),
        forall|k: int| 0 <= k < src_w * src_h ==> #[trigger] src[k] == transparent,
    ensures
        blit_frame(old, src, src_w, src_h, dx, dy, scale, transparent, flip_x) == old,
{
    let f = blit_frame(old, src, src_w, src_h, dx, dy, scale, transparent, flip_x);
    assert forall|px: int, py: int| on_screen(px, py) implies #[trigger] pixel_bytes(f, px, py)
        == pixel_bytes(old, px, py) by {
        if blit_covers(src_w, src_h, dx, dy, scale, px, py) {
            let sx = (px - dx) / scale;
            let sy = (py - dy) / scale;
            assert(0 <= sx && 0 <= sy) by (nonlinear_arith)
                requires
                    scale > 0,
                    dx <= px,
                    dy <= py,
                    sx == (px - dx) / scale,
                    sy == (py - dy) / scale,
            ;
            let rx = if flip_x { src_w - 1 - sx } else { sx };
            lemma_row_in_bounds(sy, rx, src_w, src_h);
            assert(src[sy * src_w + rx] == transparent);
        }
    }
    lemma_frame_eq(f, old);
}

/// A frame filled with one colour.
pub open spec fn fill_frame(color: u16) -> Seq<u8> {
    Seq::new(FB_LEN as nat, |i: int| if i % 2 == 0 { hi_byte(color) } else { lo_byte(color) })
}

/// Two frames with the same pixels are the same frame.
pub proof fn lemma_frame_eq(a: Seq<u8>, b: Seq<u8>)
    requires
        a.len() == FB_LEN,
        b.len() == FB_LEN,
        forall|px: int, py: int| on_screen(px, py) ==> #[trigger] pixel_bytes(a, px, py) == pixel_bytes(b, px, py),
    ensures
        a == b,
{
    assert forall|i: int| 0 <= i < FB_LEN implies a[i] == b[i] by {
        let px = (i / 2) % 240;
        let py = (i / 2) / 240;
        assert(on_screen(px, py));
        assert(pixel_offset(px, py) == i - i % 2);
        assert(pixel_bytes(a, px, py) == pixel_bytes(b, px, py));
    }
    assert(a =~= b);
}

/// A framebuffer: `W × H` pixels, row-major, two bytes each, high byte first.
pub struct Fb {
    data: Vec<u8>,
}

impl View for Fb {
    type V = Seq<u8>;

    closed spec fn view(&self) -> Seq<u8> {
        self.data@
    }
}

/// Splitting a colour into its two bytes.
proof fn lemma_split(c: u16)
    ensures
        ((c >> 8u16) as u8) == hi_byte(c),
        (c as u8) == lo_byte(c),
{
    assert(((c >> 8u16) as u8) == ((c / 256) as u8)) by (bit_vector);
    assert((c as u8) == ((c % 256) as u8)) by (bit_vector);
}

/// `t` falls into cell `s` of a grid of cells `scale` wide exactly when `t / scale == s`.
proof fn lemma_cell(t: int, scale: int, s: int)
    requires
        scale > 0,
    ensures
        (s * scale <= t < s * scale + scale) <==> t / scale == s,
{
    lemma_fundamental_div_mod(t, scale);
    if s * scale <= t < s * scale + scale {
        lemma_fundamental_div_mod_converse(t, scale, s, t - s * scale);
    }
    if t / scale == s {
        assert(0 <= t % scale < scale);
        assert(scale * (t / scale) == s * scale) by (nonlinear_arith)
            requires
                t / scale == s,
        ;
    }
}

impl Fb {
    /// The buffer holds exactly one frame.
    pub open spec fn wf(&self) -> bool {
        self@.len() == FB_LEN
    }

    /// Wraps a buffer of exactly one frame.
    pub fn new(data: Vec<u8>) -> (fb: Fb)
        requires
            data@.len() == FB_LEN,
        ensures
            fb.wf(),
            fb@ == data@,
    {
        Fb { data }
    }

    /// The frame as bytes, ready to be sent to the panel.
    pub fn bytes(&self) -> (b: &[u8])
        ensures
            b@ == self@,
    {
        self.data.as_slice()
    }

    /// The width and height of the screen.
    pub fn size(&self) -> (r: (u32, u32))
        ensures
            r == (W as u32, H as u32),
    {
        (W as u32, H as u32)
    }

    /// Writes one colour at a byte offset.
    fn put(&mut self, off: usize, hi: u8, lo: u8)
        requires
            old(self).wf(),
            off + 1 < FB_LEN,
        ensures
            final(self).wf(),
            final(self)@ == old(self)@.update(off as int, hi).update(off + 1, lo),
    {
        self.data.set(off, hi);
        self.data.set(off + 1, lo);
    }

    /// Paints every pixel with `color`.
    pub fn fill(&mut self, color: u16)
        requires
            old(self).wf(),
        ensures
            final(self).wf(),
            forall|px: int, py: int|
                on_screen(px, py) ==> #[trigger] pixel_bytes(final(self)@, px, py)
                    == color_bytes(color),
            final(self)@ == fill_frame(color),
    {
        let hi = (color >> 8) as u8;
        let lo = color as u8;
        proof {
            lemma_split(color);
        }
        let mut i: usize = 0;
        while i < FB_LEN / 2
            invariant
                self.wf(),
                i <= FB_LEN / 2,
                hi == hi_byte(color),
                lo == lo_byte(color),
                forall|k: int| 0 <= k < i ==> #[trigger] pair_at(self@, k) == (hi, lo),
            decreases FB_LEN / 2 - i,
        {
            let ghost prev = self@;
            self.put(2 * i, hi, lo);
            assert forall|k: int| 0 <= k < i + 1 implies #[trigger] pair_at(self@, k) == (
                hi,
                lo,
            ) by {
                if k < i {
                    assert(pair_at(prev, k) == (hi, lo));
                }
            }
            i += 1;
        }
        assert forall|px: int, py: int| on_screen(px, py) implies #[trigger] pixel_bytes(
            self@,
            px,
            py,
        ) == color_bytes(color) by {
            assert(pair_at(self@, py * 240 + px) == (hi, lo));
        }
        assert forall|px: int, py: int| on_screen(px, py) implies #[trigger] pixel_bytes(
            self@,
            px,
            py,
        ) == pixel_bytes(fill_frame(color), px, py) by {
            assert(pair_at(self@, py * 240 + px) == (hi, lo));
        }
        proof {
            lemma_frame_eq(self@, fill_frame(color));
        }
    }

    /// Paints the rectangle `[x0, x1) × [y0, y1)` with the colour whose bytes are `hi, lo`.
    fn fill_rect(&mut self, x0: usize, x1: usize, y0: usize, y1: usize, hi: u8, lo: u8)
        requires
            old(self).wf(),
            x0 <= x1 <= W,
            y0 <= y1 <= H,
        ensures
            final(self).wf(),
            forall|px: int, py: int|
                on_screen(px, py) ==> #[trigger] pixel_bytes(final(self)@, px, py) == if x0 <= px
                    < x1 && y0 <= py < y1 {
                    (hi, lo)
                } else {
                    pixel_bytes(old(self)@, px, py)
                },
    {
        let ghost start = self@;
        let span: usize = x1 - x0;
        let mut row: usize = y0;
        let mut row_off: usize = y0 * ROW_BYTES + x0 * 2;
        while row < y1
            invariant
                self.wf(),
                x0 <= x1 <= W,
                y0 <= row <= y1 <= H,
                span == x1 - x0,
                row_off == row * 480 + x0 * 2,
                start.len() == FB_LEN,
                forall|px: int, py: int|
                    on_screen(px, py) ==> #[trigger] pixel_bytes(self@, px, py) == if x0 <= px
                        < x1 && y0 <= py < row {
                        (hi, lo)
                    } else {
                        pixel_bytes(start, px, py)
                    },
            decreases y1 - row,
        {
            let ghost row_start = self@;
            let mut k: usize = 0;
            while k < span
                invariant
                    self.wf(),
                    x0 <= x1 <= W,
                    y0 <= row < y1 <= H,
                    span == x1 - x0,
                    k <= span,
                    row_off == row * 480 + x0 * 2,
                    row_start.len() == FB_LEN,
                    forall|px: int, py: int|
                        on_screen(px, py) ==> #[trigger] pixel_bytes(self@, px, py) == if x0
                            <= px < x0 + k && py == row {
                            (hi, lo)
                        } else {
                            pixel_bytes(row_start, px, py)
                        },
                decreases span - k,
            {
                let ghost prev = self@;
                self.put(row_off + 2 * k, hi, lo);
                assert forall|px: int, py: int| on_screen(px, py) implies #[trigger] pixel_bytes(
                    self@,
                    px,
                    py,
                ) == if x0 <= px < x0 + k + 1 && py == row {
                    (hi, lo)
                } else {
                    pixel_bytes(row_start, px, py)
                } by {
                    assert(pixel_bytes(prev, px, py) == if x0 <= px < x0 + k && py == row {
                        (hi, lo)
                    } else {
                        pixel_bytes(row_start, px, py)
                    });
                }
                k += 1;
            }
            row += 1;
            row_off += ROW_BYTES;
        }
    }

    /// Draws a `src_w × src_h` image with its top-left corner at screen `(dx, dy)`,
    /// each source pixel as a `scale × scale` block, clipped to the screen.
    /// Source pixels equal to `transparent` are skipped; with `flip_x` the image is
    /// mirrored horizontally.
    pub fn blit_scaled(
        &mut self,
        src: &[u16],
        src_w: usize,
        src_h: usize,
        dx: i32,
        dy: i32,
        scale: i32,
        transparent: u16,
        flip_x: bool,
    )
        requires
            old(self).wf(),
            blit_ok(src@, src_w as int, src_h as int, dx as int, dy as int, scale as int, transparent, flip_x),
        ensures
            final(self).wf(),
            forall|px: int, py: int|
                on_screen(px, py) ==> #[trigger] pixel_bytes(final(self)@, px, py) == blit_pixel(
                    old(self)@,
                    src@,
                    src_w as int,
                    src_h as int,
                    dx as int,
                    dy as int,
                    scale as int,
                    transparent,
                    flip_x,
                    px,
                    py,
                ),
            final(self)@ == blit_frame(
                old(self)@,
                src@,
                src_w as int,
                src_h as int,
                dx as int,
                dy as int,
                scale as int,
                transparent,
                flip_x,
            ),
    {
        let ghost start = self@;
        let src_len = src.len();
        let mut sy: usize = 0;
        while sy < src_h
            invariant
                self.wf(),
                start.len() == FB_LEN,
                sy <= src_h,
                src_len == src@.len(),
                blit_ok(src@, src_w as int, src_h as int, dx as int, dy as int, scale as int, transparent, flip_x),
                forall|px: int, py: int|
                    on_screen(px, py) ==> #[trigger] pixel_bytes(self@, px, py) == blit_partial(
                        start,
                        src@,
                        src_w as int,
                        src_h as int,
                        dx as int,
                        dy as int,
                        scale as int,
                        transparent,
                        flip_x,
                        px,
                        py,
                        sy as int,
                        0,
                    ),
            decreases src_h - sy,
        {
            assert(cell_fits(dy as int, sy as int, scale as int));
            let y0: i32 = dy + (sy as i32) * scale;
            let y_start: i32 = if y0 > 0 {
                y0
            } else {
                0
            };
            let y_end: i32 = if y0 + scale < H as i32 {
                y0 + scale
            } else {
                H as i32
            };
            if y_start >= y_end {
                proof {
                    assert forall|px: int, py: int| on_screen(px, py) implies #[trigger] pixel_bytes(
                        self@,
                        px,
                        py,
                    ) == blit_partial(
                        start,
                        src@,
                        src_w as int,
                        src_h as int,
                        dx as int,
                        dy as int,
                        scale as int,
                        transparent,
                        flip_x,
                        px,
                        py,
                        sy + 1,
                        0,
                    ) by {
                        if scale > 0 {
                            lemma_clipped_cell(
                                dy as int,
                                sy as int,
                                scale as int,
                                H as int,
                                y_start as int,
                                y_end as int,
                                py,
                            );
                        }
                    }
                }
                sy += 1;
                continue;
            }
            assert(row_on_screen(dy as int, sy as int, scale as int));
            let mut sx: usize = 0;
            while sx < src_w
                invariant
                    self.wf(),
                    start.len() == FB_LEN,
                    sy < src_h,
                    sx <= src_w,
                    scale > 0,
                    src_len == src@.len(),
                    blit_ok(src@, src_w as int, src_h as int, dx as int, dy as int, scale as int, transparent, flip_x),
                    row_on_screen(dy as int, sy as int, scale as int),
                    (sy + 1) * src_w <= src@.len(),
                    y0 == dy + sy * scale,
                    y_start == if y0 > 0 {
                        y0
                    } else {
                        0
                    },
                    y_end == if y0 + scale < H {
                        y0 + scale
                    } else {
                        H as int
                    },
                    0 <= y_start < y_end <= H,
                    forall|px: int, py: int|
                        on_screen(px, py) ==> #[trigger] pixel_bytes(self@, px, py)
                            == blit_partial(
                            start,
                            src@,
                            src_w as int,
                            src_h as int,
                            dx as int,
                            dy as int,
                            scale as int,
                            transparent,
                            flip_x,
                            px,
                            py,
                            sy as int,
                            sx as int,
                        ),
                decreases src_w - sx,
            {
                let read_x: usize = if flip_x {
                    src_w - 1 - sx
                } else {
                    sx
                };
                proof {
                    assert(sy * src_w + read_x < (sy + 1) * src_w && 0 <= sy * src_w) by (nonlinear_arith)
                        requires
                            0 <= read_x < src_w,
                            0 <= sy,
                    ;
                    assert(read_index(src_w as int, sy as int, sx as int, flip_x) == sy * src_w + read_x);
                }
                let raw = src[sy * src_w + read_x];
                let ghost prev = self@;
                let x_ok: bool;
                if raw == transparent {
                    x_ok = false;
                } else {
                    let hi = (raw >> 8) as u8;
                    let lo = raw as u8;
                    proof {
                        lemma_split(raw);
                    }
                    assert(cell_fits(dx as int, sx as int, scale as int));
                    let x0: i32 = dx + (sx as i32) * scale;
                    let x_start: i32 = if x0 > 0 {
                        x0
                    } else {
                        0
                    };
                    let x_end: i32 = if x0 + scale < W as i32 {
                        x0 + scale
                    } else {
                        W as i32
                    };
                    if x_start >= x_end {
                        x_ok = false;
                        proof {
                            assert forall|px: int, py: int| on_screen(
                                px,
                                py,
                            ) implies #[trigger] pixel_bytes(self@, px, py) == blit_partial(
                                start,
                                src@,
                                src_w as int,
                                src_h as int,
                                dx as int,
                                dy as int,
                                scale as int,
                                transparent,
                                flip_x,
                                px,
                                py,
                                sy as int,
                                sx + 1,
                            ) by {
                                lemma_clipped_cell(
                                    dx as int,
                                    sx as int,
                                    scale as int,
                                    W as int,
                                    x_start as int,
                                    x_end as int,
                                    px,
                                );
                            }
                        }
                    } else {
                        x_ok = true;
                        self.fill_rect(
                            x_start as usize,
                            x_end as usize,
                            y_start as usize,
                            y_end as usize,
                            hi,
                            lo,
                        );
                        proof {
                            assert forall|px: int, py: int| on_screen(
                                px,
                                py,
                            ) implies #[trigger] pixel_bytes(self@, px, py) == blit_partial(
                                start,
                                src@,
                                src_w as int,
                                src_h as int,
                                dx as int,
                                dy as int,
                                scale as int,
                                transparent,
                                flip_x,
                                px,
                                py,
                                sy as int,
                                sx + 1,
                            ) by {
                                lemma_clipped_cell(
                                    dx as int,
                                    sx as int,
                                    scale as int,
                                    W as int,
                                    x_start as int,
                                    x_end as int,
                                    px,
                                );
                                lemma_clipped_cell(
                                    dy as int,
                                    sy as int,
                                    scale as int,
                                    H as int,
                                    y_start as int,
                                    y_end as int,
                                    py,
                                );
                                assert(pixel_bytes(prev, px, py) == blit_partial(
                                    start,
                                    src@,
                                    src_w as int,
                                    src_h as int,
                                    dx as int,
                                    dy as int,
                                    scale as int,
                                    transparent,
                                    flip_x,
                                    px,
                                    py,
                                    sy as int,
                                    sx as int,
                                ));
                            }
                        }
                    }
                }
                if !x_ok && raw == transparent {
                    proof {
                        assert forall|px: int, py: int| on_screen(
                            px,
                            py,
                        ) implies #[trigger] pixel_bytes(self@, px, py) == blit_partial(
                            start,
                            src@,
                            src_w as int,
                            src_h as int,
                            dx as int,
                            dy as int,
                            scale as int,
                            transparent,
                            flip_x,
                            px,
                            py,
                            sy as int,
                            sx + 1,
                        ) by {
                            assert(pixel_bytes(prev, px, py) == blit_partial(
                                start,
                                src@,
                                src_w as int,
                                src_h as int,
                                dx as int,
                                dy as int,
                                scale as int,
                                transparent,
                                flip_x,
                                px,
                                py,
                                sy as int,
                                sx as int,
                            ));
                        }
                    }
                }
                sx += 1;
            }
            sy += 1;
        }
        proof {
            lemma_blit_frame(
                start,
                self@,
                src@,
                src_w as int,
                src_h as int,
                dx as int,
                dy as int,
                scale as int,
                transparent,
                flip_x,
            );
        }
    }

    /// Writes individual pixels, each given as `(x, y, colour)`, in order; pixels
    /// off the screen are ignored.
    pub fn draw_iter(&mut self, pixels: &[(i32, i32, u16)])
        requires
            old(self).wf(),
        ensures
            final(self).wf(),
            forall|px: int, py: int|
                on_screen(px, py) ==> #[trigger] pixel_bytes(final(self)@, px, py) == match last_write(
                    pixels@,
                    px,
                    py,
                ) {
                    Some(c) => color_bytes(c),
                    None => pixel_bytes(old(self)@, px, py),
                },
    {
        let ghost start = self@;
        let n = pixels.len();
        let mut i: usize = 0;
        while i < n
            invariant
                self.wf(),
                start.len() == FB_LEN,
                n == pixels@.len(),
                i <= n,
                forall|px: int, py: int|
                    on_screen(px, py) ==> #[trigger] pixel_bytes(self@, px, py) == match last_write(
                        pixels@.take(i as int),
                        px,
                        py,
                    ) {
                        Some(c) => color_bytes(c),
                        None => pixel_bytes(start, px, py),
                    },
            decreases n - i,
        {
            let (x, y, raw) = pixels[i];
            let ghost prev = self@;
            if x >= 0 && x < W as i32 && y >= 0 && y < H as i32 {
                let idx = ((y as usize) * W + (x as usize)) * 2;
                proof {
                    lemma_split(raw);
                }
                self.put(idx, (raw >> 8) as u8, raw as u8);
            }
            proof {
                assert(pixels@.take(i + 1).drop_last() =~= pixels@.take(i as int));
                assert forall|px: int, py: int| on_screen(px, py) implies #[trigger] pixel_bytes(
                    self@,
                    px,
                    py,
                ) == match last_write(pixels@.take(i + 1), px, py) {
                    Some(c) => color_bytes(c),
                    None => pixel_bytes(start, px, py),
                } by {
                    assert(pixel_bytes(prev, px, py) == match last_write(
                        pixels@.take(i as int),
                        px,
                        py,
                    ) {
                        Some(c) => color_bytes(c),
                        None => pixel_bytes(start, px, py),
                    });
                }
            }
            i += 1;
        }
        assert(pixels@.take(n as int) =~= pixels@);
    }
}

} // verus!
