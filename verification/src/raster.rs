//! An RGBA8 image held as plain samples, row-major, four samples per pixel.
//!
//! Cropping and alpha compositing are left to the `image` crate; what the
//! library reads of an image (its size and its samples) is held here.
use vstd::prelude::*;

verus! {

/// The sample index of the first channel of pixel `(x, y)` in a row-major
/// RGBA8 image of the given width.
pub open spec fn sample_index(width: int, x: int, y: int) -> int {
    4 * (y * width + x)
}

/// An RGBA8 image: `data` holds `width * height` pixels of four samples each,
/// row by row, each pixel as red, green, blue, alpha.
pub struct RgbaImage {
    pub width: u32,
    pub height: u32,
    pub data: Vec<u8>,
}

/// The alpha sample of a pixel.
pub open spec fn alpha_of(p: Seq<u8>) -> u8 {
    p[3]
}

impl RgbaImage {
    /// The buffer holds exactly the samples of `width * height` pixels.
    pub open spec fn wf(&self) -> bool {
        self.data@.len() == 4 * (self.width as int) * (self.height as int)
    }

    /// The four samples of pixel `(x, y)`.
    pub open spec fn pixel(&self, x: int, y: int) -> Seq<u8> {
        self.data@.subrange(
            sample_index(self.width as int, x, y),
            sample_index(self.width as int, x, y) + 4,
        )
    }

    /// Takes a buffer of samples as an image of the given size; `None` when the
    /// buffer does not hold exactly `width * height` pixels.
    pub fn from_raw(width: u32, height: u32, data: Vec<u8>) -> (r: Option<RgbaImage>)
        ensures
            (r is Some) <==> data@.len() == 4 * (width as int) * (height as int),
            r matches Some(img) ==> img.wf() && img.width == width && img.height == height
                && img.data@ == data@,
    {
        assert((width as int) * (height as int) <= 0xffff_ffff * 0xffff_ffff) by (nonlinear_arith)
            requires width <= 0xffff_ffffu32, height <= 0xffff_ffffu32;
        let px = (width as u64) * (height as u64);
        assert(4 * (width as int) * (height as int) == px * 4) by (nonlinear_arith)
            requires px == (width as int) * (height as int);
        let len = data.len();
        match px.checked_mul(4) {
            Some(n) => {
                if len as u64 == n {
                    Some(RgbaImage { width, height, data })
                } else {
                    None
                }
            },
            None => None,
        }
    }

    /// A fully transparent black image of the given size.
    pub fn new(width: u32, height: u32) -> (r: RgbaImage)
        requires
            4 * (width as int) * (height as int) <= usize::MAX,
        ensures
            r.wf(),
            r.width == width,
            r.height == height,
            forall|i: int| 0 <= i < r.data@.len() ==> r.data@[i] == 0,
    {
        assert((width as int) * (height as int) <= usize::MAX) by (nonlinear_arith)
            requires 4 * (width as int) * (height as int) <= usize::MAX;
        assert((width as int) * (height as int) * 4 <= usize::MAX) by (nonlinear_arith)
            requires 4 * (width as int) * (height as int) <= usize::MAX;
        let n: usize = (width as usize) * (height as usize) * 4;
        assert(n == 4 * (width as int) * (height as int)) by (nonlinear_arith)
            requires n == (width as int) * (height as int) * 4;
        let mut data: Vec<u8> = Vec::with_capacity(n);
        let mut i: usize = 0;
        while i < n
            invariant
                i <= n,
                data@.len() == i,
                forall|j: int| 0 <= j < i ==> data@[j] == 0,
            decreases n - i,
        {
            data.push(0);
            i += 1;
        }
        RgbaImage { width, height, data }
    }

    /// The width and height of the image.
    pub fn dimensions(&self) -> (r: (u32, u32))
        ensures
            r == (self.width, self.height),
    {
        (self.width, self.height)
    }

    /// The samples of pixel `(x, y)`.
    pub fn get_pixel(&self, x: u32, y: u32) -> (p: [u8; 4])
        requires
            self.wf(),
            x < self.width,
            y < self.height,
        ensures
            p@ == self.pixel(x as int, y as int),
    {
        proof {
            lemma_pixel_in_bounds(self.width as int, self.height as int, x as int, y as int);
        }
        assert(self.data@.len() <= usize::MAX) by {
            let _n = self.data.len();
        }
        let i: usize = 4 * ((y as usize) * (self.width as usize) + (x as usize));
        let p = [self.data[i], self.data[i + 1], self.data[i + 2], self.data[i + 3]];
        assert(p@ =~= self.pixel(x as int, y as int));
        p
    }
}

/// The last sample of a pixel inside a `width × height` image lies inside its buffer.
pub proof fn lemma_pixel_in_bounds(width: int, height: int, x: int, y: int)
    requires
        0 <= x < width,
        0 <= y < height,
    ensures
        0 <= y * width,
        y * width + x + 1 <= width * height,
        0 <= sample_index(width, x, y),
        sample_index(width, x, y) + 4 <= 4 * width * height,
{
    assert(0 <= y * width) by (nonlinear_arith)
        requires
            0 <= y,
            0 <= width,
    ;
    assert(y * width + x + 1 <= width * height) by (nonlinear_arith)
        requires
            0 <= x < width,
            0 <= y < height,
    ;
    assert(4 * width * height == 4 * (width * height)) by (nonlinear_arith);
}


/// The region `image::imageops::crop_imm` keeps of an image: its origin is
/// clamped into the image and its size to what remains of the image from there.
pub open spec fn crop_region(img_w: u32, img_h: u32, x: u32, y: u32, w: u32, h: u32) -> (u32, u32, u32, u32) {
    let cx = if x < img_w { x } else { img_w };
    let cy = if y < img_h { y } else { img_h };
    let cw = if w < img_w - cx { w } else { (img_w - cx) as u32 };
    let ch = if h < img_h - cy { h } else { (img_h - cy) as u32 };
    (cx, cy, cw, ch)
}

/// `r` is the region `crop_region` gives of `img`, pixel for pixel.
pub open spec fn is_crop(img: RgbaImage, x: u32, y: u32, w: u32, h: u32, r: RgbaImage) -> bool {
    let (cx, cy, cw, ch) = crop_region(img.width, img.height, x, y, w, h);
    &&& r.width == cw
    &&& r.height == ch
    &&& forall|i: int, j: int|
        0 <= i < r.width && 0 <= j < r.height ==> #[trigger] r.pixel(i, j) == img.pixel(cx + i, cy + j)
}

/// The pixel that `image::imageops::overlay` leaves where it draws `top` over
/// `bottom` and the top pixel is neither fully transparent nor fully opaque
/// (an alpha composite computed in floating point by the `image` crate).
pub uninterp spec fn blended_pixel(bottom: Seq<u8>, top: Seq<u8>) -> Seq<u8>;

/// The pixel that drawing `top` over `bottom` gives: the bottom pixel where the
/// top one is fully transparent, the top pixel where it is fully opaque.
pub open spec fn blend(bottom: Seq<u8>, top: Seq<u8>) -> Seq<u8> {
    if top[3] == 0 {
        bottom
    } else if top[3] == 255 {
        top
    } else {
        blended_pixel(bottom, top)
    }
}

/// Whether pixel `(px, py)` of a `bw × bh` image lies under a `tw × th` image
/// placed with its top-left corner at `(x, y)`.
pub open spec fn overlay_covers(bw: int, bh: int, tw: int, th: int, x: int, y: int, px: int, py: int) -> bool {
    0 <= px < bw && 0 <= py < bh && x <= px < x + tw && y <= py < y + th
}

impl RgbaImage {
    /// Calls `image::imageops::crop_imm(..).to_image()` on this image: the
    /// region `crop_region` gives, copied pixel by pixel into a new image.
    #[verifier::external_body]
    pub fn crop(&self, x: u32, y: u32, w: u32, h: u32) -> (r: RgbaImage)
        requires
            self.wf(),
        ensures
            r.wf(),
            is_crop(*self, x, y, w, h, r),
    {
        let src = image::RgbaImage::from_raw(self.width, self.height, self.data.clone()).unwrap();
        let out = image::imageops::crop_imm(&src, x, y, w, h).to_image();
        let (width, height) = out.dimensions();
        RgbaImage { width, height, data: out.into_raw() }
    }

    /// Calls `image::imageops::overlay` to draw `top` over this image with its
    /// top-left corner at `(x, y)`: every covered pixel becomes the blend of
    /// the two (as `blend` says: the bottom pixel under a fully transparent top
    /// pixel, the top pixel where it is fully opaque), every other pixel stays.
    /// What the crate computes for a partly transparent top pixel is named by
    /// `blended_pixel`, not stated.
    #[verifier::external_body]
    pub fn overlay(&mut self, top: &RgbaImage, x: i64, y: i64)
        requires
            old(self).wf(),
            top.wf(),
        ensures
            final(self).wf(),
            final(self).width == old(self).width,
            final(self).height == old(self).height,
            forall|px: int, py: int|
                0 <= px < old(self).width && 0 <= py < old(self).height ==> #[trigger] final(self).pixel(px, py)
                    == if overlay_covers(
                    old(self).width as int,
                    old(self).height as int,
                    top.width as int,
                    top.height as int,
                    x as int,
                    y as int,
                    px,
                    py,
                ) {
                    if top.pixel(px - x, py - y)[3] == 0 {
                        old(self).pixel(px, py)
                    } else if top.pixel(px - x, py - y)[3] == 255 {
                        top.pixel(px - x, py - y)
                    } else {
                        blended_pixel(old(self).pixel(px, py), top.pixel(px - x, py - y))
                    }
                } else {
                    old(self).pixel(px, py)
                },
    {
        let mut bottom = image::RgbaImage::from_raw(self.width, self.height, std::mem::take(&mut self.data)).unwrap();
        let t = image::RgbaImage::from_raw(top.width, top.height, top.data.clone()).unwrap();
        image::imageops::overlay(&mut bottom, &t, x, y);
        self.data = bottom.into_raw();
    }
}


/// The RGBA8 image that the `image` crate decodes a PNG file into, as its
/// width, its height and its samples; `None` when it cannot decode the bytes.
pub uninterp spec fn png_rgba8(bytes: Seq<u8>) -> Option<(u32, u32, Seq<u8>)>;

/// Whether `img` is the image that the PNG file `bytes` decodes into.
pub open spec fn decodes_to(bytes: Seq<u8>, img: RgbaImage) -> bool {
    img.wf() && png_rgba8(bytes) == Some((img.width, img.height, img.data@))
}

/// Calls `image::load_from_memory_with_format` on `bytes` as a PNG file and
/// converts the decoded image with `to_rgba8`. The decoded image is named by
/// `png_rgba8`, not stated (decoding a PNG file takes pages); the contract says
/// that the result is `None` exactly when the crate reports an error, and that
/// an image it returns holds exactly its `width * height` pixels, as the
/// crate's decoders and conversions allocate them.
#[verifier::external_body]
pub(crate) fn decode_png(bytes: &[u8]) -> (r: Option<RgbaImage>)
    ensures
        (r is Some) <==> (png_rgba8(bytes@) is Some),
        r matches Some(img) ==> decodes_to(bytes@, img),
{
    match image::load_from_memory_with_format(bytes, image::ImageFormat::Png) {
        Ok(decoded) => {
            let rgba = decoded.to_rgba8();
            let (width, height) = rgba.dimensions();
            Some(RgbaImage { width, height, data: rgba.into_raw() })
        },
        Err(_) => None,
    }
}

} // verus!
