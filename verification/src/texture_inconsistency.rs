//! Texture inconsistency: how far each pixel's luminance lies from the mean of its 7 by 7
//! neighbourhood.
use vstd::prelude::*;
use crate::arith::{abs_diff, min};
use crate::codec::{luma8_output, to_luma8};
use crate::gradient_forensics::{gat, gray_at};
use crate::raster::{GrayImage, RgbImage};

verus! {

/// The sum of `len` pixels of row `y` of the gray map `g` from column `x0`.
pub open spec fn row_sum(g: Seq<u8>, w: int, x0: int, y: int, len: int) -> int
    decreases len,
{
    if len <= 0 {
        0
    } else {
        row_sum(g, w, x0, y, len - 1) + gat(g, w, x0 + len - 1, y)
    }
}

/// The sum of the `side` by `rows` block of the gray map `g` whose top-left pixel is `(x0, y0)`.
pub open spec fn block_sum(g: Seq<u8>, w: int, x0: int, y0: int, side: int, rows: int) -> int
    decreases rows,
{
    if rows <= 0 {
        0
    } else {
        block_sum(g, w, x0, y0, side, rows - 1) + row_sum(g, w, x0, y0 + rows - 1, side)
    }
}

/// The texture view of the `w` by `h` gray map `g` at `(x, y)` is `v`: twice the distance of the
/// pixel from the mean of its 7 by 7 neighbourhood, rounded down and capped at 255, for pixels
/// at least 3 from every border; 0 elsewhere.
pub open spec fn texture_value(g: Seq<u8>, w: int, h: int, x: int, y: int) -> int {
    if 3 <= x < w - 3 && 3 <= y < h - 3 {
        min(2 * abs_diff(49 * gat(g, w, x, y), block_sum(g, w, x - 3, y - 3, 7, 7)) / 49, 255)
    } else {
        0
    }
}

/// Pixel `q` of the row-major RGB buffer `data` is gray at the texture view of `g` there.
pub open spec fn texture_pixel(g: Seq<u8>, w: int, h: int, data: Seq<u8>, q: int) -> bool {
    &&& data[3 * q] == texture_value(g, w, h, q % w, q / w)
    &&& data[3 * q + 1] == data[3 * q]
    &&& data[3 * q + 2] == data[3 * q]
}

/// The sum of the 7 by 7 block of `g` whose top-left pixel is `(x0, y0)`.
fn block7_sum(g: &GrayImage, x0: u32, y0: u32) -> (s: u32)
    requires
        g.wf(),
        x0 + 7 <= g.width,
        y0 + 7 <= g.height,
    ensures
        s == block_sum(g.data@, g.width as int, x0 as int, y0 as int, 7, 7),
        s <= 255 * 49,
{
    let mut s: u32 = 0;
    let mut dy: u32 = 0;
    while dy < 7
        invariant
            g.wf(),
            x0 + 7 <= g.width,
            y0 + 7 <= g.height,
            dy <= 7,
            s == block_sum(g.data@, g.width as int, x0 as int, y0 as int, 7, dy as int),
            s <= 1785 * dy,
        decreases 7 - dy,
    {
        let mut r: u32 = 0;
        let mut dx: u32 = 0;
        while dx < 7
            invariant
                g.wf(),
                x0 + 7 <= g.width,
                y0 + 7 <= g.height,
                dy < 7,
                dx <= 7,
                r == row_sum(g.data@, g.width as int, x0 as int, (y0 + dy) as int, dx as int),
                r <= 255 * dx,
            decreases 7 - dx,
        {
            r = r + gray_at(g, x0 + dx, y0 + dy) as u32;
            dx += 1;
        }
        s = s + r;
        dy += 1;
    }
    s
}

/// The texture view of `g` at `(x, y)`.
fn texture_at(g: &GrayImage, x: u32, y: u32) -> (v: u8)
    requires
        g.wf(),
        x < g.width,
        y < g.height,
    ensures
        v == texture_value(g.data@, g.width as int, g.height as int, x as int, y as int),
{
    if x < 3 || y < 3 || x as u64 + 3 >= g.width as u64 || y as u64 + 3 >= g.height as u64 {
        return 0;
    }
    let s: u32 = block7_sum(g, x - 3, y - 3);
    let c: u32 = 49 * gray_at(g, x, y) as u32;
    let d: u32 = if c >= s { c - s } else { s - c };
    let q: u32 = 2 * d / 49;
    if q > 255 { 255 } else { q as u8 }
}

/// Texture inconsistency: deviation of each pixel from its local mean, to reveal inpainting,
/// cloning or splicing.
pub struct TextureInconsistencyPlugin;

impl TextureInconsistencyPlugin {
    /// The texture view of a gray image: every pixel is gray at `texture_value`.
    pub fn texture_view(g: &GrayImage) -> (out: RgbImage)
        requires
            g.wf(),
            g.width * g.height * 3 <= usize::MAX,
        ensures
            out.wf(),
            out.width == g.width,
            out.height == g.height,
            forall|q: int|
                0 <= q < g.width * g.height ==> #[trigger] texture_pixel(
                    g.data@,
                    g.width as int,
                    g.height as int,
                    out.data@,
                    q,
                ),
    {
        let n: usize = (g.width as usize) * (g.height as usize);
        let mut data: Vec<u8> = Vec::new();
        let mut p: usize = 0;
        while p < n
            invariant
                g.wf(),
                g.width * g.height * 3 <= usize::MAX,
                n == g.width * g.height,
                p <= n,
                data@.len() == 3 * p,
                forall|q: int|
                    0 <= q < p ==> #[trigger] texture_pixel(g.data@, g.width as int, g.height as int, data@, q),
            decreases n - p,
        {
            proof {
                assert(g.width > 0) by (nonlinear_arith)
                    requires p < n, n == g.width * g.height;
                vstd::arithmetic::div_mod::lemma_fundamental_div_mod(p as int, g.width as int);
            }
            let xs: usize = p % (g.width as usize);
            let ys: usize = p / (g.width as usize);
            proof {
                assert(ys < g.height) by (nonlinear_arith)
                    requires p == g.width * ys + xs, 0 <= xs, p < g.width * g.height, g.width >= 1;
            }
            let v: u8 = texture_at(g, xs as u32, ys as u32);
            let ghost before = data@;
            data.push(v);
            data.push(v);
            data.push(v);
            proof {
                assert(texture_pixel(g.data@, g.width as int, g.height as int, data@, p as int));
                assert forall|q: int| 0 <= q < p + 1 implies #[trigger] texture_pixel(
                    g.data@,
                    g.width as int,
                    g.height as int,
                    data@,
                    q,
                ) by {
                    if q < p {
                        assert(texture_pixel(g.data@, g.width as int, g.height as int, before, q));
                    }
                }
            }
            p += 1;
        }
        RgbImage { width: g.width, height: g.height, data }
    }

    /// The texture view of the luminance of `img`.
    pub fn analyze_texture_inconsistency(&self, img: &RgbImage) -> (out: RgbImage)
        requires
            img.wf(),
        ensures
            out.wf(),
            out.same_size(img),
            forall|q: int|
                0 <= q < img.width * img.height ==> #[trigger] texture_pixel(
                    luma8_output(img.data@, img.width, img.height),
                    img.width as int,
                    img.height as int,
                    out.data@,
                    q,
                ),
    {
        let len: usize = img.data.len();
        let gray = to_luma8(img);
        proof {
            assert(gray.width * gray.height * 3 == len);
        }
        Self::texture_view(&gray)
    }

    /// The texture view of `img`; always produced.
    pub fn process(&self, img: &RgbImage) -> (r: Option<RgbImage>)
        requires
            img.wf(),
        ensures
            r matches Some(out) && out.wf() && out.same_size(img) && forall|q: int|
                0 <= q < img.width * img.height ==> #[trigger] texture_pixel(
                    luma8_output(img.data@, img.width, img.height),
                    img.width as int,
                    img.height as int,
                    out.data@,
                    q,
                ),
    {
        Some(self.analyze_texture_inconsistency(img))
    }

    /// The analysis name shown to users.
    pub fn name(&self) -> (s: &'static str)
        ensures
            s@ == "Texture Inconsistency"@,
    {
        "Texture Inconsistency"
    }

    /// What the analysis shows.
    pub fn description(&self) -> (s: &'static str)
        ensures
            s@ == "Detects local texture inconsistencies by analyzing cross-correlation within sliding windows. The algorithm computes the absolute difference between each pixel and the local mean of its surrounding neighborhood, measuring how well each pixel's texture matches its local context. Regions where the texture deviates from the expected local pattern are highlighted as potential forgeries. This technique is effective at revealing inpainting, cloning, or splicing operations that disrupt natural texture coherence."@,
    {
        "Detects local texture inconsistencies by analyzing cross-correlation within sliding windows. The algorithm computes the absolute difference between each pixel and the local mean of its surrounding neighborhood, measuring how well each pixel's texture matches its local context. Regions where the texture deviates from the expected local pattern are highlighted as potential forgeries. This technique is effective at revealing inpainting, cloning, or splicing operations that disrupt natural texture coherence."
    }

    /// No bibliographic reference.
    pub fn reference(&self) -> (s: &'static str)
        ensures
            s@ == ""@,
    {
        ""
    }
}

/// The constructor that the plugin host calls.
pub fn create_texture_inconsistency_plugin() -> (p: TextureInconsistencyPlugin) {
    TextureInconsistencyPlugin
}

} // verus!
