//! RGB565 encoding of RGBA8 pixels.
use vstd::prelude::*;
use crate::fb::{hi_byte, lo_byte, pair_at};
use crate::raster::{RgbaImage, lemma_pixel_in_bounds};

verus! {

/// The RGB565 value that the framebuffer treats as "no pixel here" (pure green).
pub const TRANSPARENT_RGB565: u16 = 0x07E0;

/// The RGB565 packing of an RGB8 colour: 5 bits of red, 6 of green, 5 of blue.
pub open spec fn rgb565_pack(r: u8, g: u8, b: u8) -> int {
    (r as int / 8) * 2048 + (g as int / 4) * 32 + b as int / 8
}

/// What a pixel encodes to: the sentinel for a mostly transparent pixel, else its
/// packed colour, nudged by one where it would collide with the sentinel.
pub open spec fn rgb565_of(r: u8, g: u8, b: u8, a: u8) -> u16 {
    if a < 128 {
        TRANSPARENT_RGB565
    } else if rgb565_pack(r, g, b) == TRANSPARENT_RGB565 as int {
        (TRANSPARENT_RGB565 + 1) as u16
    } else {
        rgb565_pack(r, g, b) as u16
    }
}

/// Encodes one RGBA8 pixel as RGB565.
///
/// A pixel is transparent exactly when its alpha is below 128; an opaque
/// pixel never encodes to the sentinel, and differs from its plain packing
/// by at most one.
pub fn to_rgb565(r: u8, g: u8, b: u8, a: u8) -> (v: u16)
    ensures
        v == rgb565_of(r, g, b, a),
        (v == TRANSPARENT_RGB565) <==> a < 128,
        a >= 128 ==> rgb565_pack(r, g, b) <= v as int <= rgb565_pack(r, g, b) + 1,
{
    if a < 128 {
        return TRANSPARENT_RGB565;
    }
    let v = (((r as u16) & 0xF8) << 8) | (((g as u16) & 0xFC) << 3) | ((b as u16) >> 3);
    assert(v == (r / 8) * 2048 + (g / 4) * 32 + b / 8) by (bit_vector)
        requires
            v == (((r as u16) & 0xF8) << 8) | (((g as u16) & 0xFC) << 3) | ((b as u16) >> 3),
    ;
    if v == TRANSPARENT_RGB565 {
        v.wrapping_add(1)
    } else {
        v
    }
}


/// The encoding of the `k`-th pixel, in row-major order, of a buffer of RGBA8 samples.
pub open spec fn encoded_pixel(samples: Seq<u8>, k: int) -> u16 {
    rgb565_of(samples[4 * k], samples[4 * k + 1], samples[4 * k + 2], samples[4 * k + 3])
}

/// The two bytes of an RGB565 value in little-endian order.
proof fn lemma_le_bytes(v: u16)
    ensures
        (v as u8) == lo_byte(v),
        ((v >> 8u16) as u8) == hi_byte(v),
{
    assert((v as u8) == ((v % 256) as u8)) by (bit_vector);
    assert(((v >> 8u16) as u8) == ((v / 256) as u8)) by (bit_vector);
}

/// Packs an RGBA8 image into little-endian RGB565 bytes, row by row.
pub fn image_to_bytes(img: &RgbaImage) -> (bytes: Vec<u8>)
    requires
        img.wf(),
        2 * (img.width as int) * (img.height as int) <= u32::MAX,
    ensures
        bytes@.len() == 2 * (img.width as int) * (img.height as int),
        forall|k: int|
            0 <= k < (img.width as int) * (img.height as int) ==> #[trigger] pair_at(bytes@, k) == (
                lo_byte(encoded_pixel(img.data@, k)),
                hi_byte(encoded_pixel(img.data@, k)),
            ),
{
    let (w, h) = img.dimensions();
    assert(w * h * 2 == 2 * (w as int) * (h as int)) by (nonlinear_arith);
    assert(w * h <= w * h * 2) by (nonlinear_arith);
    let mut bytes: Vec<u8> = Vec::with_capacity((w * h * 2) as usize);
    let ghost mut k: int = 0;
    let mut y: u32 = 0;
    while y < h
        invariant
            img.wf(),
            w == img.width,
            h == img.height,
            y <= h,
            k == y * w,
            bytes@.len() == 2 * k,
            forall|j: int|
                0 <= j < k ==> #[trigger] pair_at(bytes@, j) == (
                    lo_byte(encoded_pixel(img.data@, j)),
                    hi_byte(encoded_pixel(img.data@, j)),
                ),
        decreases h - y,
    {
        let mut x: u32 = 0;
        while x < w
            invariant
                img.wf(),
                w == img.width,
                h == img.height,
                y < h,
                x <= w,
                k == y * w + x,
                bytes@.len() == 2 * k,
                forall|j: int|
                    0 <= j < k ==> #[trigger] pair_at(bytes@, j) == (
                        lo_byte(encoded_pixel(img.data@, j)),
                        hi_byte(encoded_pixel(img.data@, j)),
                    ),
            decreases w - x,
        {
            let p = img.get_pixel(x, y);
            proof {
                lemma_pixel_in_bounds(w as int, h as int, x as int, y as int);
            }
            let v = to_rgb565(p[0], p[1], p[2], p[3]);
            proof {
                lemma_le_bytes(v);
                assert(v == encoded_pixel(img.data@, k));
            }
            let ghost prev = bytes@;
            bytes.push(v as u8);
            bytes.push((v >> 8) as u8);
            proof {
                assert forall|j: int| 0 <= j < k + 1 implies #[trigger] pair_at(bytes@, j) == (
                    lo_byte(encoded_pixel(img.data@, j)),
                    hi_byte(encoded_pixel(img.data@, j)),
                ) by {
                    if j < k {
                        assert(pair_at(prev, j) == pair_at(bytes@, j));
                    }
                }
                k = k + 1;
            }
            x += 1;
        }
        assert((y + 1) * w == y * w + w) by (nonlinear_arith);
        y += 1;
    }
    assert(k == (w as int) * (h as int)) by (nonlinear_arith)
        requires
            k == y * w,
            y == h,
    ;
    assert(2 * (w as int) * (h as int) == 2 * ((w as int) * (h as int))) by (nonlinear_arith);
    bytes
}

} // verus!
