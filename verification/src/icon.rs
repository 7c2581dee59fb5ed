//! App-icon surface repair for the macOS bundle: pixel classification
//! against the icon artwork, the content bounding box, scaling inset
//! artwork back to full bleed, and repainting matte pixels with the
//! background gradient.

use vstd::prelude::*;
use vstd::arithmetic::div_mod::{lemma_fundamental_div_mod, lemma_fundamental_div_mod_converse};
use vstd::string::StringExecFns;
use image::{ImageBuffer, Rgba, imageops};
use crate::text::{decimal, push_decimal};

verus! {

/// An RGBA image with 8-bit channels, row-major, four bytes per pixel.
pub struct RgbaPixels {
    pub width: u32,
    pub height: u32,
    pub data: Vec<u8>,
}

/// The buffer holds exactly `width * height` pixels.
pub open spec fn pixels_wf(width: u32, height: u32, data: Seq<u8>) -> bool {
    data.len() == 4 * (width as int * height as int)
}

impl RgbaPixels {
    pub open spec fn wf(&self) -> bool {
        pixels_wf(self.width, self.height, self.data@)
    }
}

/// Mouse body bounds on the canvas (inclusive).
#[derive(Debug, Clone, Copy, PartialEq, Eq, Structural)]
pub struct MouseBounds {
    pub x0: u32,
    pub x1: u32,
    pub y0: u32,
    pub y1: u32,
}

pub open spec fn spec_in_mouse(x: int, y: int, mb: MouseBounds) -> bool {
    mb.x0 <= x <= mb.x1 && mb.y0 <= y <= mb.y1
}

/// Whether `(x, y)` lies on the mouse body.
pub fn in_mouse(x: u32, y: u32, mx0: u32, mx1: u32, my0: u32, my1: u32) -> (r: bool)
    ensures
        r == spec_in_mouse(x as int, y as int, MouseBounds { x0: mx0, x1: mx1, y0: my0, y1: my1 }),
{
    x >= mx0 && x <= mx1 && y >= my0 && y <= my1
}

/// Matte left by an exporter: (nearly) transparent, or opaque near-white or
/// near-black.
pub open spec fn spec_is_matte(r: u8, g: u8, b: u8, a: u8) -> bool {
    ||| a < 20
    ||| (a > 200 && r > 240 && g > 240 && b > 240)
    ||| (a > 200 && r < 15 && g < 15 && b < 15)
}

/// Whether an `[r, g, b, a]` pixel is exporter matte.
pub fn is_matte_pixel(p: [u8; 4]) -> (m: bool)
    ensures
        m == spec_is_matte(p@[0], p@[1], p@[2], p@[3]),
{
    let r = p[0];
    let g = p[1];
    let b = p[2];
    let a = p[3];
    a < 20 || (a > 200 && r > 240 && g > 240 && b > 240) || (a > 200 && r < 15 && g < 15 && b < 15)
}

/// A pixel of the icon's blue background.
pub open spec fn spec_is_blue(r: u8, g: u8, b: u8, a: u8) -> bool {
    a > 160 && b > 160 && r < 160 && g < 210
}

/// Whether an `[r, g, b, a]` pixel belongs to the blue background.
pub fn is_blue_pixel(p: [u8; 4]) -> (blue: bool)
    ensures
        blue == spec_is_blue(p@[0], p@[1], p@[2], p@[3]),
{
    p[3] > 160 && p[2] > 160 && p[0] < 160 && p[1] < 210
}

/// Artwork content: the mouse body, or anything that is not matte.
pub open spec fn spec_is_content(p: Seq<u8>, x: int, y: int, mb: MouseBounds) -> bool {
    spec_in_mouse(x, y, mb) || !spec_is_matte(p[0], p[1], p[2], p[3])
}

/// Whether the pixel `p` at `(x, y)` is artwork content.
pub fn is_content_pixel(p: [u8; 4], x: u32, y: u32, mx0: u32, mx1: u32, my0: u32, my1: u32) -> (c: bool)
    ensures
        c == spec_is_content(p@, x as int, y as int, MouseBounds { x0: mx0, x1: mx1, y0: my0, y1: my1 }),
{
    in_mouse(x, y, mx0, mx1, my0, my1) || !is_matte_pixel(p)
}

/// Pixel `k` of `data`, as a sequence of its four channels.
pub open spec fn pixel(data: Seq<u8>, k: int) -> Seq<u8> {
    data.subrange(4 * k, 4 * k + 4)
}

/// Pixel `k` of an image `width` wide is artwork content.
pub open spec fn content_at(data: Seq<u8>, width: u32, mb: MouseBounds, k: int) -> bool {
    spec_is_content(pixel(data, k), k % width as int, k / width as int, mb)
}

/// The coordinates of pixel `k` of a `width × height` image are in range and
/// determine `k`.
proof fn lemma_coords(k: int, width: int, height: int)
    requires
        width > 0,
        0 <= k < width * height,
    ensures
        0 <= k % width < width,
        0 <= k / width < height,
        k == (k / width) * width + k % width,
{
    lemma_fundamental_div_mod(k, width);
    assert(0 <= k % width < width) by {
        vstd::arithmetic::div_mod::lemma_mod_bound(k, width);
    }
    let q = k / width;
    let r = k % width;
    assert(k == q * width + r) by {
        vstd::arithmetic::mul::lemma_mul_is_commutative(width, q);
    }
    assert(0 <= q < height) by (nonlinear_arith)
        requires
            k == q * width + r,
            0 <= r < width,
            0 <= k < width * height,
            width > 0,
    {
    }
}

/// Moving to the next pixel moves one column right, or to the start of the next row.
proof fn lemma_next_coords(k: int, width: int, x: int, y: int)
    requires
        width > 0,
        k >= 0,
        x == k % width,
        y == k / width,
        0 <= x < width,
        k == y * width + x,
    ensures
        x + 1 < width ==> (k + 1) % width == x + 1 && (k + 1) / width == y,
        x + 1 == width ==> (k + 1) % width == 0 && (k + 1) / width == y + 1,
{
    if x + 1 < width {
        lemma_fundamental_div_mod_converse(k + 1, width, y, x + 1);
    } else {
        assert((y + 1) * width == y * width + width) by (nonlinear_arith);
        lemma_fundamental_div_mod_converse(k + 1, width, y + 1, 0);
    }
}

/// The bounding box `(min_x, min_y, max_x, max_y)` of the artwork content of
/// a `width`-wide image of `n` pixels, when there is content.
pub open spec fn content_box_ok(
    data: Seq<u8>,
    width: u32,
    n: int,
    mb: MouseBounds,
    bbox: (u32, u32, u32, u32),
) -> bool {
    let (min_x, min_y, max_x, max_y) = bbox;
    &&& forall|k: int| 0 <= k < n && #[trigger] content_at(data, width, mb, k) ==> {
        &&& min_x <= k % width as int <= max_x
        &&& min_y <= k / width as int <= max_y
    }
    &&& exists|k: int| 0 <= k < n && #[trigger] content_at(data, width, mb, k) && k % width as int == min_x
    &&& exists|k: int| 0 <= k < n && #[trigger] content_at(data, width, mb, k) && k % width as int == max_x
    &&& exists|k: int| 0 <= k < n && #[trigger] content_at(data, width, mb, k) && k / width as int == min_y
    &&& exists|k: int| 0 <= k < n && #[trigger] content_at(data, width, mb, k) && k / width as int == max_y
}

/// The tight bounding box of the artwork content (mouse body or non-matte
/// pixels), or `None` when the image holds no content.
pub fn content_box(img: &RgbaPixels, mb: MouseBounds) -> (bbox: Option<(u32, u32, u32, u32)>)
    requires
        img.wf(),
    ensures
        match bbox {
            Some(b) => content_box_ok(img.data@, img.width, img.width * img.height, mb, b),
            None => forall|k: int| 0 <= k < img.width * img.height
                ==> !#[trigger] content_at(img.data@, img.width, mb, k),
        },
{
    let w = img.width;
    let h = img.height;
    let n = img.data.len() / 4;
    let ghost wi = w as int;
    let ghost n_spec = w as int * h as int;
    assert(n == n_spec);
    assert(n > 0 ==> w > 0 && h > 0) by (nonlinear_arith)
        requires
            n == w as int * h as int;
    let mut min_x: u32 = w;
    let mut min_y: u32 = h;
    let mut max_x: u32 = 0;
    let mut max_y: u32 = 0;
    let mut found = false;
    let mut k: usize = 0;
    let mut x: u32 = 0;
    let mut y: u32 = 0;
    let ghost mut wx0: int = 0;
    let ghost mut wx1: int = 0;
    let ghost mut wy0: int = 0;
    let ghost mut wy1: int = 0;
    while k < n
        invariant
            img.wf(),
            n == img.width * img.height,
            w == img.width,
            h == img.height,
            wi == w,
            k <= n,
            n > 0 ==> w > 0,
            k < n ==> x == k as int % wi && y == k as int / wi && x < w && y < h
                && k == y * wi + x,
            found <==> exists|j: int| 0 <= j < k && #[trigger] content_at(img.data@, w, mb, j),
            forall|j: int| 0 <= j < k && #[trigger] content_at(img.data@, w, mb, j) ==> {
                &&& min_x <= j % wi <= max_x
                &&& min_y <= j / wi <= max_y
            },
            found ==> {
                &&& 0 <= wx0 < k && content_at(img.data@, w, mb, wx0) && wx0 % wi == min_x
                &&& 0 <= wx1 < k && content_at(img.data@, w, mb, wx1) && wx1 % wi == max_x
                &&& 0 <= wy0 < k && content_at(img.data@, w, mb, wy0) && wy0 / wi == min_y
                &&& 0 <= wy1 < k && content_at(img.data@, w, mb, wy1) && wy1 / wi == max_y
            },
        decreases n - k,
    {
        proof {
            lemma_coords(k as int, wi, h as int);
        }
        assert(4 * k + 3 < img.data.len());
        let p: [u8; 4] = [img.data[4 * k], img.data[4 * k + 1], img.data[4 * k + 2], img.data[4 * k + 3]];
        assert(p@ =~= pixel(img.data@, k as int));
        if is_content_pixel(p, x, y, mb.x0, mb.x1, mb.y0, mb.y1) {
            assert(content_at(img.data@, w, mb, k as int));
            if !found || x < min_x {
                min_x = x;
                proof { wx0 = k as int; }
            }
            if !found || y < min_y {
                min_y = y;
                proof { wy0 = k as int; }
            }
            if !found || x > max_x {
                max_x = x;
                proof { wx1 = k as int; }
            }
            if !found || y > max_y {
                max_y = y;
                proof { wy1 = k as int; }
            }
            found = true;
        }
        proof {
            lemma_next_coords(k as int, wi, x as int, y as int);
        }
        k = k + 1;
        if x + 1 < w {
            x = x + 1;
        } else {
            x = 0;
            if k < n {
                proof { lemma_coords(k as int, wi, h as int); }
                y = y + 1;
            }
        }
        proof {
            if k < n {
                assert(k == y * wi + x) by (nonlinear_arith)
                    requires
                        x == k as int % wi,
                        y == k as int / wi,
                        wi > 0,
                        k as int == (k as int / wi) * wi + k as int % wi;
            }
        }
    }
    if found {
        assert(content_box_ok(img.data@, w, n as int, mb, (min_x, min_y, max_x, max_y)));
        Some((min_x, min_y, max_x, max_y))
    } else {
        None
    }
}


/// Two boxes that both bound the content tightly are the same box.
proof fn lemma_content_box_unique(
    data: Seq<u8>,
    width: u32,
    n: int,
    mb: MouseBounds,
    a: (u32, u32, u32, u32),
    b: (u32, u32, u32, u32),
)
    requires
        content_box_ok(data, width, n, mb, a),
        content_box_ok(data, width, n, mb, b),
    ensures
        a == b,
{
    let w = width as int;
    let k = choose|k: int| 0 <= k < n && #[trigger] content_at(data, width, mb, k) && k % w == a.0;
    let k = choose|k: int| 0 <= k < n && #[trigger] content_at(data, width, mb, k) && k % w == b.0;
    let k = choose|k: int| 0 <= k < n && #[trigger] content_at(data, width, mb, k) && k % w == a.2;
    let k = choose|k: int| 0 <= k < n && #[trigger] content_at(data, width, mb, k) && k % w == b.2;
    let k = choose|k: int| 0 <= k < n && #[trigger] content_at(data, width, mb, k) && k / w == a.1;
    let k = choose|k: int| 0 <= k < n && #[trigger] content_at(data, width, mb, k) && k / w == b.1;
    let k = choose|k: int| 0 <= k < n && #[trigger] content_at(data, width, mb, k) && k / w == a.3;
    let k = choose|k: int| 0 <= k < n && #[trigger] content_at(data, width, mb, k) && k / w == b.3;
}

/// The content bounding box of a `width × height` image, if it has content.
pub open spec fn spec_content_box(data: Seq<u8>, width: u32, height: u32, mb: MouseBounds) -> Option<
    (u32, u32, u32, u32),
> {
    let n = width as int * height as int;
    if exists|b: (u32, u32, u32, u32)| content_box_ok(data, width, n, mb, b) {
        Some(choose|b: (u32, u32, u32, u32)| content_box_ok(data, width, n, mb, b))
    } else {
        None
    }
}

/// The `cw × ch` region of a `width`-wide image whose top-left pixel is `(x, y)`.
pub open spec fn spec_crop(data: Seq<u8>, width: u32, x: u32, y: u32, cw: u32, ch: u32) -> Seq<u8> {
    Seq::new(
        (4 * (cw as int * ch as int)) as nat,
        |i: int|
            data[4 * ((y + (i / 4) / cw as int) * width as int + (x + (i / 4) % cw as int)) + i % 4],
    )
}

/// Calls `image::imageops::crop_imm` and `SubImage::to_image` on the image
/// held by `img`: the result is the `cw × ch` region at `(x, y)`, copied
/// pixel by pixel (within bounds, `crop_imm` clamps nothing).
#[verifier::external_body]
fn crop(img: &RgbaPixels, x: u32, y: u32, cw: u32, ch: u32) -> (out: RgbaPixels)
    requires
        img.wf(),
        x + cw <= img.width,
        y + ch <= img.height,
    ensures
        out.width == cw,
        out.height == ch,
        out.data@ == spec_crop(img.data@, img.width, x, y, cw, ch),
{
    let buf = ImageBuffer::<Rgba<u8>, Vec<u8>>::from_raw(img.width, img.height, img.data.clone())
        .expect("buffer holds width * height pixels");
    let out = imageops::crop_imm(&buf, x, y, cw, ch).to_image();
    RgbaPixels { width: out.width(), height: out.height(), data: out.into_raw() }
}

/// Holds between a `sw × sh` RGBA image `src`, a target size `nw × nh`, and
/// an image `out` that `image::imageops::resize` with `FilterType::Lanczos3`
/// returned for them. It is a relation, not a function: the Lanczos kernel
/// goes through `f32::sin`, whose precision std leaves unspecified, so two
/// resamples of one image may differ, and each of them is an outcome.
pub uninterp spec fn lanczos3_outcome(src: Seq<u8>, sw: u32, sh: u32, nw: u32, nh: u32, out: Seq<u8>) -> bool;

/// Calls `image::imageops::resize` with `FilterType::Lanczos3` on the image
/// held by `img`. The result is an `nwidth × nheight` image that is an
/// outcome of resampling `img` (`lanczos3_outcome`); when the size does not
/// change, the crate returns a copy of the pixels. The resampled values
/// themselves are left unsaid, since they rest on `f32::sin`. The
/// requirements keep the crate's buffers (RGBA8 out, RGBA f32 in between)
/// within what can be allocated.
#[verifier::external_body]
fn resize_lanczos3(img: &RgbaPixels, nwidth: u32, nheight: u32) -> (out: RgbaPixels)
    requires
        img.wf(),
        4 * (nwidth as int * nheight as int) <= usize::MAX,
        16 * (img.width as int * nheight as int) <= isize::MAX,
    ensures
        out.width == nwidth,
        out.height == nheight,
        out.wf(),
        nwidth == img.width && nheight == img.height ==> out.data@ == img.data@,
        lanczos3_outcome(img.data@, img.width, img.height, nwidth, nheight, out.data@),
{
    let buf = ImageBuffer::<Rgba<u8>, Vec<u8>>::from_raw(img.width, img.height, img.data.clone())
        .expect("buffer holds width * height pixels");
    let out = imageops::resize(&buf, nwidth, nheight, imageops::FilterType::Lanczos3);
    RgbaPixels { width: out.width(), height: out.height(), data: out.into_raw() }
}

/// Which region to resample to the full canvas: none when there is no
/// content or when the content's shorter side already reaches
/// `fill_threshold`; otherwise the content box as `(x, y, width, height)`.
pub open spec fn spec_scale_plan(data: Seq<u8>, width: u32, height: u32, mb: MouseBounds, fill_threshold: u32) -> Option<
    (u32, u32, u32, u32),
> {
    match spec_content_box(data, width, height, mb) {
        None => None,
        Some((min_x, min_y, max_x, max_y)) => {
            let cw = (max_x - min_x + 1) as u32;
            let ch = (max_y - min_y + 1) as u32;
            if (if cw < ch { cw } else { ch }) >= fill_threshold {
                None
            } else {
                Some((min_x, min_y, cw, ch))
            }
        },
    }
}

/// Inset artwork is resampled exactly when its shorter side falls below the
/// threshold: for content whose tight box `bbox` is `cw × ch`, a region is
/// planned if and only if `cw` or `ch` is below `fill_threshold`, and that
/// region is the box itself. An image without content plans nothing.
pub proof fn lemma_scale_plan_by_shorter_side(
    data: Seq<u8>,
    width: u32,
    height: u32,
    mb: MouseBounds,
    fill_threshold: u32,
    bbox: (u32, u32, u32, u32),
)
    ensures
        content_box_ok(data, width, width as int * height as int, mb, bbox) ==> {
            let cw = bbox.2 - bbox.0 + 1;
            let ch = bbox.3 - bbox.1 + 1;
            &&& (spec_scale_plan(data, width, height, mb, fill_threshold) is Some)
                <==> (cw < fill_threshold || ch < fill_threshold)
            &&& spec_scale_plan(data, width, height, mb, fill_threshold) matches Some((x, y, pw, ph))
                ==> x == bbox.0 && y == bbox.1 && pw == cw && ph == ch
        },
        (forall|k: int| 0 <= k < width as int * height as int ==> !#[trigger] content_at(data, width, mb, k))
            ==> spec_scale_plan(data, width, height, mb, fill_threshold) is None,
{
    let n = width as int * height as int;
    if content_box_ok(data, width, n, mb, bbox) {
        let c = choose|c: (u32, u32, u32, u32)| content_box_ok(data, width, n, mb, c);
        lemma_content_box_unique(data, width, n, mb, bbox, c);
        let k = choose|k: int| 0 <= k < n && #[trigger] content_at(data, width, mb, k)
            && k % width as int == bbox.0;
        let k3 = choose|k: int| 0 <= k < n && #[trigger] content_at(data, width, mb, k)
            && k % width as int == bbox.2;
        let k2 = choose|k: int| 0 <= k < n && #[trigger] content_at(data, width, mb, k)
            && k / width as int == bbox.1;
        let k4 = choose|k: int| 0 <= k < n && #[trigger] content_at(data, width, mb, k)
            && k / width as int == bbox.3;
        assert(width > 0) by (nonlinear_arith)
            requires
                0 <= k < n,
                n == width as int * height as int;
        lemma_coords(k, width as int, height as int);
        lemma_coords(k2, width as int, height as int);
        lemma_coords(k3, width as int, height as int);
        lemma_coords(k4, width as int, height as int);
    }
    if forall|k: int| 0 <= k < n ==> !#[trigger] content_at(data, width, mb, k) {
        assert(!exists|b: (u32, u32, u32, u32)| content_box_ok(data, width, n, mb, b)) by {
            if exists|b: (u32, u32, u32, u32)| content_box_ok(data, width, n, mb, b) {
                let b = choose|b: (u32, u32, u32, u32)| content_box_ok(data, width, n, mb, b);
                let k = choose|k: int| 0 <= k < n && #[trigger] content_at(data, width, mb, k)
                    && k % width as int == b.0;
            }
        }
    }
}

/// The region that scaling to full bleed resamples, if any.
pub fn scale_plan(img: &RgbaPixels, mb: MouseBounds, fill_threshold: u32) -> (plan: Option<(u32, u32, u32, u32)>)
    requires
        img.wf(),
    ensures
        plan == spec_scale_plan(img.data@, img.width, img.height, mb, fill_threshold),
        plan matches Some((x, y, cw, ch)) ==> 0 < cw && x + cw <= img.width && 0 < ch && y + ch <= img.height,
{
    let w = img.width;
    let h = img.height;
    let ghost n = w as int * h as int;
    let bbox = content_box(img, mb);
    match bbox {
        None => {
            assert(!exists|b: (u32, u32, u32, u32)| content_box_ok(img.data@, w, n, mb, b)) by {
                if exists|b: (u32, u32, u32, u32)| content_box_ok(img.data@, w, n, mb, b) {
                    let b = choose|b: (u32, u32, u32, u32)| content_box_ok(img.data@, w, n, mb, b);
                    let k = choose|k: int| 0 <= k < n && #[trigger] content_at(img.data@, w, mb, k)
                        && k % w as int == b.0;
                }
            }
            None
        },
        Some((min_x, min_y, max_x, max_y)) => {
            proof {
                let b = (min_x, min_y, max_x, max_y);
                let c = choose|c: (u32, u32, u32, u32)| content_box_ok(img.data@, w, n, mb, c);
                lemma_content_box_unique(img.data@, w, n, mb, b, c);
                let k = choose|k: int| 0 <= k < n && #[trigger] content_at(img.data@, w, mb, k)
                    && k % w as int == min_x;
                let k2 = choose|k: int| 0 <= k < n && #[trigger] content_at(img.data@, w, mb, k)
                    && k / w as int == min_y;
                assert(w > 0) by (nonlinear_arith)
                    requires
                        0 <= k < n,
                        n == w as int * h as int;
                lemma_coords(k, w as int, h as int);
                lemma_coords(k2, w as int, h as int);
                let k3 = choose|k: int| 0 <= k < n && #[trigger] content_at(img.data@, w, mb, k)
                    && k % w as int == max_x;
                let k4 = choose|k: int| 0 <= k < n && #[trigger] content_at(img.data@, w, mb, k)
                    && k / w as int == max_y;
                lemma_coords(k3, w as int, h as int);
                lemma_coords(k4, w as int, h as int);
            }
            let cw = max_x - min_x + 1;
            let ch = max_y - min_y + 1;
            let shorter = if cw < ch { cw } else { ch };
            if shorter >= fill_threshold {
                None
            } else {
                Some((min_x, min_y, cw, ch))
            }
        },
    }
}

/// Scale up when an exporter inset the artwork on a white square. The
/// threshold is the smallest content side that counts as full bleed. Without
/// a region to resample the image is returned as it is; otherwise the region
/// is cropped and resampled (Lanczos3) back to the full canvas, which keeps
/// the size (a region of the full size is copied as it is).
pub fn scale_content_to_fill(img: RgbaPixels, mb: MouseBounds, fill_threshold: u32) -> (out: RgbaPixels)
    requires
        img.wf(),
        16 * (img.width as int * img.height as int) <= isize::MAX,
    ensures
        out.wf(),
        out.width == img.width,
        out.height == img.height,
        spec_scale_plan(img.data@, img.width, img.height, mb, fill_threshold) is None
            ==> out.data@ == img.data@,
        spec_scale_plan(img.data@, img.width, img.height, mb, fill_threshold) matches Some((x, y, cw, ch))
            ==> (cw == img.width && ch == img.height ==> out.data@ == spec_crop(img.data@, img.width, x, y, cw, ch)),
        spec_scale_plan(img.data@, img.width, img.height, mb, fill_threshold) matches Some((x, y, cw, ch))
            ==> lanczos3_outcome(spec_crop(img.data@, img.width, x, y, cw, ch), cw, ch, img.width, img.height, out.data@),
{
    let w = img.width;
    let h = img.height;
    match scale_plan(&img, mb, fill_threshold) {
        None => img,
        Some((x, y, cw, ch)) => {
            let cropped = crop(&img, x, y, cw, ch);
            assert(cropped.wf());
            assert(16 * (cw as int * h as int) <= 16 * (w as int * h as int)) by (nonlinear_arith)
                requires
                    cw <= w;
            resize_lanczos3(&cropped, w, h)
        },
    }
}

/// Pixel `k` of an image `width` wide is exporter matte outside the mouse
/// body and not part of the blue background, so it gets repainted.
pub open spec fn paints(data: Seq<u8>, width: u32, mb: MouseBounds, k: int) -> bool {
    let p = pixel(data, k);
    &&& !spec_in_mouse(k % width as int, k / width as int, mb)
    &&& !spec_is_blue(p[0], p[1], p[2], p[3])
    &&& spec_is_matte(p[0], p[1], p[2], p[3])
}

/// Every repainted pixel takes the gradient colour of its row; every other
/// byte stays.
pub open spec fn repaired(data: Seq<u8>, width: u32, mb: MouseBounds, gradient: Seq<[u8; 4]>) -> Seq<u8> {
    Seq::new(
        data.len(),
        |i: int|
            if paints(data, width, mb, i / 4) {
                gradient[(i / 4) / width as int]@[i % 4]
            } else {
                data[i]
            },
    )
}

/// Paint every non-mouse matte pixel with the row's colour of the icon's
/// background gradient (`gradient[y]` for row `y`), so the Dock tile is
/// full-bleed.
pub fn repair_surface(img: &mut RgbaPixels, mb: MouseBounds, gradient: &[[u8; 4]])
    requires
        old(img).wf(),
        gradient@.len() == old(img).height,
    ensures
        final(img).width == old(img).width,
        final(img).height == old(img).height,
        final(img).data@ == repaired(old(img).data@, old(img).width, mb, gradient@),
{
    let w = img.width;
    let h = img.height;
    let n = img.data.len() / 4;
    let ghost orig = img.data@;
    let ghost wi = w as int;
    assert(n > 0 ==> w > 0 && h > 0) by (nonlinear_arith)
        requires
            n == w as int * h as int;
    let mut k: usize = 0;
    let mut x: u32 = 0;
    let mut y: u32 = 0;
    while k < n
        invariant
            img.width == w,
            img.height == h,
            wi == w,
            n == w as int * h as int,
            orig.len() == 4 * n,
            img.data@.len() == orig.len(),
            gradient@.len() == h,
            k <= n,
            n > 0 ==> w > 0,
            k < n ==> x == k as int % wi && y == k as int / wi && x < w && y < h
                && k == y * wi + x,
            forall|i: int| 0 <= i < 4 * k ==> img.data@[i] == #[trigger] repaired(orig, w, mb, gradient@)[i],
            forall|i: int| 4 * k <= i < orig.len() ==> img.data@[i] == orig[i],
        decreases n - k,
    {
        proof {
            lemma_coords(k as int, wi, h as int);
        }
        assert(4 * k + 3 < img.data.len());
        let base = 4 * k;
        let p: [u8; 4] = [img.data[base], img.data[base + 1], img.data[base + 2], img.data[base + 3]];
        assert(p@ =~= pixel(orig, k as int));
        let paint = !in_mouse(x, y, mb.x0, mb.x1, mb.y0, mb.y1) && !is_blue_pixel(p) && is_matte_pixel(p);
        assert(paint == paints(orig, w, mb, k as int));
        if paint {
            let color = gradient[y as usize];
            img.data.set(base, color[0]);
            img.data.set(base + 1, color[1]);
            img.data.set(base + 2, color[2]);
            img.data.set(base + 3, color[3]);
        }
        assert forall|i: int| 0 <= i < 4 * (k + 1) implies img.data@[i] == #[trigger] repaired(orig, w, mb, gradient@)[i] by {
            if i >= 4 * k {
                assert(i / 4 == k);
                assert((i / 4) / wi == y);
            }
        }
        proof {
            lemma_next_coords(k as int, wi, x as int, y as int);
        }
        k = k + 1;
        if x + 1 < w {
            x = x + 1;
        } else {
            x = 0;
            if k < n {
                proof { lemma_coords(k as int, wi, h as int); }
                y = y + 1;
            }
        }
        proof {
            if k < n {
                assert(k == y * wi + x) by (nonlinear_arith)
                    requires
                        x == k as int % wi,
                        y == k as int / wi,
                        wi > 0,
                        k as int == (k as int / wi) * wi + k as int % wi;
            }
        }
    }
    assert(img.data@ =~= repaired(orig, w, mb, gradient@));
}

/// Fix exporter matting: scale inset content up to the canvas, then paint
/// every non-mouse matte pixel with the icon's background gradient.
pub fn repair_icon_surface(
    img: RgbaPixels,
    mb: MouseBounds,
    fill_threshold: u32,
    gradient: &[[u8; 4]],
) -> (out: RgbaPixels)
    requires
        img.wf(),
        16 * (img.width as int * img.height as int) <= isize::MAX,
        gradient@.len() == img.height,
    ensures
        out.width == img.width,
        out.height == img.height,
        exists|scaled: Seq<u8>| {
            &&& scaled.len() == img.data@.len()
            &&& spec_scale_plan(img.data@, img.width, img.height, mb, fill_threshold) is None ==> scaled
                == img.data@
            &&& spec_scale_plan(img.data@, img.width, img.height, mb, fill_threshold) matches Some((x, y, cw, ch))
                ==> lanczos3_outcome(spec_crop(img.data@, img.width, x, y, cw, ch), cw, ch, img.width, img.height, scaled)
            &&& out.data@ == repaired(scaled, img.width, mb, gradient@)
        },
{
    let ghost orig = img.data@;
    let mut out = scale_content_to_fill(img, mb, fill_threshold);
    let ghost scaled = out.data@;
    repair_surface(&mut out, mb, gradient);
    assert(scaled.len() == orig.len());
    out
}

/// Repairing never touches the artwork: pixels on the mouse body and
/// pixels that are not matte keep their value.
pub proof fn lemma_repair_keeps_content(
    data: Seq<u8>,
    width: u32,
    mb: MouseBounds,
    gradient: Seq<[u8; 4]>,
    k: int,
)
    requires
        0 <= k,
        4 * k + 4 <= data.len(),
        content_at(data, width, mb, k),
    ensures
        pixel(repaired(data, width, mb, gradient), k) == pixel(data, k),
{
    let r = repaired(data, width, mb, gradient);
    assert forall|c: int| 0 <= c < 4 implies #[trigger] pixel(r, k)[c] == pixel(data, k)[c] by {
        assert((4 * k + c) / 4 == k);
    }
    assert(pixel(r, k) =~= pixel(data, k));
}

/// With a gradient of opaque colours that are not matte (as the icon's blue
/// gradient is), repairing an already repaired image changes nothing.
pub proof fn lemma_repair_idempotent(data: Seq<u8>, width: u32, mb: MouseBounds, gradient: Seq<[u8; 4]>)
    requires
        width > 0,
        data.len() == 4 * (width as int * gradient.len()),
        forall|y: int| 0 <= y < gradient.len() ==>
            !spec_is_matte(#[trigger] gradient[y]@[0], gradient[y]@[1], gradient[y]@[2], gradient[y]@[3]),
    ensures
        repaired(repaired(data, width, mb, gradient), width, mb, gradient) == repaired(data, width, mb, gradient),
{
    let r = repaired(data, width, mb, gradient);
    let rr = repaired(r, width, mb, gradient);
    assert forall|i: int| 0 <= i < r.len() implies #[trigger] rr[i] == r[i] by {
        let k = i / 4;
        assert(0 <= k < width as int * gradient.len());
        lemma_coords(k, width as int, gradient.len() as int);
        assert forall|c: int| 0 <= c < 4 implies #[trigger] pixel(r, k)[c] == (if paints(data, width, mb, k) {
            gradient[k / width as int]@[c]
        } else {
            pixel(data, k)[c]
        }) by {
            assert((4 * k + c) / 4 == k);
            assert((4 * k + c) % 4 == c);
        }
        assert(!paints(r, width, mb, k));
    }
    assert(rr =~= r);
}

/// The icon sizes of a macOS `.iconset`, each also rendered at twice the size.
pub open spec fn iconset_sizes() -> Seq<u16> {
    seq![16u16, 32u16, 128u16, 256u16, 512u16]
}

/// `icon_<s>x<s>.png`, or `icon_<s>x<s>@2x.png` for the double-size rendering.
pub open spec fn iconset_file_name(size: u16, retina: bool) -> Seq<char> {
    "icon_"@ + decimal(size as nat) + "x"@ + decimal(size as nat) + (if retina { "@2x.png"@ } else { ".png"@ })
}

/// The file name of one `.iconset` entry.
pub fn iconset_file(size: u16, retina: bool) -> (name: String)
    ensures
        name@ == iconset_file_name(size, retina),
{
    let mut name = String::from_str("icon_");
    push_decimal(&mut name, size as u64);
    name.append("x");
    push_decimal(&mut name, size as u64);
    if retina {
        name.append("@2x.png");
    } else {
        name.append(".png");
    }
    name
}

/// One rendering of the `.iconset`: the pixel size and the file it goes to.
pub struct IconsetEntry {
    pub pixels: u16,
    pub file_name: String,
}

/// Entries `2 i` and `2 i + 1` are the base and double-size renderings of base size `i`.
pub open spec fn iconset_pair_ok(entries: Seq<IconsetEntry>, i: int) -> bool {
    &&& entries[2 * i].pixels == iconset_sizes()[i]
    &&& entries[2 * i].file_name@ == iconset_file_name(iconset_sizes()[i], false)
    &&& entries[2 * i + 1].pixels == 2 * iconset_sizes()[i]
    &&& entries[2 * i + 1].file_name@ == iconset_file_name(iconset_sizes()[i], true)
}

/// Every rendering of the `.iconset`, in order: for each base size, the
/// base rendering and then the double-size (`@2x`) one.
pub fn iconset_entries() -> (entries: Vec<IconsetEntry>)
    ensures
        entries@.len() == 2 * iconset_sizes().len(),
        forall|i: int| 0 <= i < iconset_sizes().len() ==> #[trigger] iconset_pair_ok(entries@, i),
{
    let sizes: [u16; 5] = [16, 32, 128, 256, 512];
    assert(sizes@ == iconset_sizes());
    let mut entries: Vec<IconsetEntry> = Vec::new();
    let mut i: usize = 0;
    while i < 5
        invariant
            i <= 5,
            sizes@ == iconset_sizes(),
            entries@.len() == 2 * i,
            forall|j: int| 0 <= j < i ==> #[trigger] iconset_pair_ok(entries@, j),
        decreases 5 - i,
    {
        let size = sizes[i];
        let ghost prev = entries@;
        entries.push(IconsetEntry { pixels: size, file_name: iconset_file(size, false) });
        entries.push(IconsetEntry { pixels: size * 2, file_name: iconset_file(size, true) });
        assert forall|j: int| 0 <= j <= i implies #[trigger] iconset_pair_ok(entries@, j) by {
            if j < i {
                assert(iconset_pair_ok(prev, j));
                assert(entries@[2 * j] == prev[2 * j]);
                assert(entries@[2 * j + 1] == prev[2 * j + 1]);
            } else {
                assert(size == iconset_sizes()[j]);
            }
        }
        i = i + 1;
    }
    entries
}

} // verus!
