//! Gradient forensics: the Sobel gradient magnitude of the luminance, rendered in cyan.
use vstd::prelude::*;
use crate::arith::{is_capped_sqrt, sqrt_capped_255};
use crate::codec::{luma8_output, to_luma8};
use crate::raster::{GrayImage, RgbImage};

verus! {

/// Pixel `(x, y)` of the row-major gray map `g` with rows of `width` pixels.
pub open spec fn gat(g: Seq<u8>, width: int, x: int, y: int) -> int {
    g[y * width + x] as int
}

/// The horizontal Sobel response of `g` at the interior pixel `(x, y)`.
pub open spec fn sobel_x(g: Seq<u8>, w: int, x: int, y: int) -> int {
    -gat(g, w, x - 1, y - 1) + gat(g, w, x + 1, y - 1) - 2 * gat(g, w, x - 1, y) + 2 * gat(g, w, x + 1, y)
        - gat(g, w, x - 1, y + 1) + gat(g, w, x + 1, y + 1)
}

/// The vertical Sobel response of `g` at the interior pixel `(x, y)`.
pub open spec fn sobel_y(g: Seq<u8>, w: int, x: int, y: int) -> int {
    -gat(g, w, x - 1, y - 1) - 2 * gat(g, w, x, y - 1) - gat(g, w, x + 1, y - 1) + gat(g, w, x - 1, y + 1)
        + 2 * gat(g, w, x, y + 1) + gat(g, w, x + 1, y + 1)
}

/// `(x, y)` is not on the outer ring of a `width` by `height` image.
pub open spec fn interior(width: int, height: int, x: int, y: int) -> bool {
    1 <= x < width - 1 && 1 <= y < height - 1
}

/// The gradient view of `g` at pixel `(x, y)` is `v`: five times the gradient magnitude, rounded
/// down and capped at 255, inside the outer ring; 0 on it.
pub open spec fn gradient_value(g: Seq<u8>, w: int, h: int, x: int, y: int, v: int) -> bool {
    if interior(w, h, x, y) {
        is_capped_sqrt(
            25 * (sobel_x(g, w, x, y) * sobel_x(g, w, x, y) + sobel_y(g, w, x, y) * sobel_y(g, w, x, y)),
            255,
            v,
        )
    } else {
        v == 0
    }
}

/// Pixel `q` of the row-major RGB buffer `data` is `[0, v, v]` with `v` the gradient view of
/// the `w` by `h` gray map `g` there.
pub open spec fn gradient_pixel(g: Seq<u8>, w: int, h: int, data: Seq<u8>, q: int) -> bool {
    &&& data[3 * q] == 0
    &&& data[3 * q + 1] == data[3 * q + 2]
    &&& gradient_value(g, w, h, q % w, q / w, data[3 * q + 1] as int)
}

/// Pixel `(x, y)` of a gray image.
pub fn gray_at(g: &GrayImage, x: u32, y: u32) -> (v: u8)
    requires
        g.wf(),
        x < g.width,
        y < g.height,
    ensures
        v == g.at(x as int, y as int),
{
    let len: usize = g.data.len();
    proof {
        assert(y * g.width + x < g.width * g.height) by (nonlinear_arith)
            requires x < g.width, y < g.height;
    }
    g.data[(y as usize) * (g.width as usize) + (x as usize)]
}

/// The gradient view of `g` at `(x, y)`.
fn gradient_at(g: &GrayImage, x: u32, y: u32) -> (v: u8)
    requires
        g.wf(),
        x < g.width,
        y < g.height,
    ensures
        gradient_value(g.data@, g.width as int, g.height as int, x as int, y as int, v as int),
{
    if x < 1 || y < 1 || x as u64 + 1 >= g.width as u64 || y as u64 + 1 >= g.height as u64 {
        return 0;
    }
    let a: i64 = gray_at(g, x - 1, y - 1) as i64;
    let b: i64 = gray_at(g, x, y - 1) as i64;
    let c: i64 = gray_at(g, x + 1, y - 1) as i64;
    let d: i64 = gray_at(g, x - 1, y) as i64;
    let e: i64 = gray_at(g, x + 1, y) as i64;
    let f: i64 = gray_at(g, x - 1, y + 1) as i64;
    let h: i64 = gray_at(g, x, y + 1) as i64;
    let i: i64 = gray_at(g, x + 1, y + 1) as i64;
    let gx: i64 = -a + c - 2 * d + 2 * e - f + i;
    let gy: i64 = -a - 2 * b - c + f + 2 * h + i;
    proof {
        assert(gx * gx <= 1020 * 1020) by (nonlinear_arith)
            requires -1020 <= gx <= 1020;
        assert(gy * gy <= 1020 * 1020) by (nonlinear_arith)
            requires -1020 <= gy <= 1020;
        assert(gx * gx >= 0) by (nonlinear_arith);
        assert(gy * gy >= 0) by (nonlinear_arith);
    }
    let m: u64 = (25 * (gx * gx + gy * gy)) as u64;
    sqrt_capped_255(m) as u8
}

/// Gradient forensics: Sobel gradients of the luminance, to reveal inpainting.
pub struct GradientForensicsPlugin;

impl GradientForensicsPlugin {
    /// The gradient view of a gray image: every pixel is `[0, v, v]` with `v` as
    /// `gradient_value` defines it.
    pub fn gradient_view(g: &GrayImage) -> (out: RgbImage)
        requires
            g.wf(),
            g.width * g.height * 3 <= usize::MAX,
        ensures
            out.wf(),
            out.width == g.width,
            out.height == g.height,
            forall|q: int| 0 <= q < g.width * g.height ==> #[trigger] gradient_pixel(g.data@, g.width as int, g.height as int, out.data@, q),
    {
        let n: usize = (g.width as usize) * (g.height as usize);
        let mut data: Vec<u8> = Vec::new();
        let mut p: usize = 0;
        while p < n
            invariant
                g.wf(),
                g.width * g.height * 3 <= usize::MAX,
                n == g.width * g.height,
                p <= n,
                data@.len() == 3 * p,
                forall|q: int| 0 <= q < p ==> #[trigger] gradient_pixel(g.data@, g.width as int, g.height as int, data@, q),
            decreases n - p,
        {
            proof {
                assert(g.width > 0) by (nonlinear_arith)
                    requires p < n, n == g.width * g.height;
                vstd::arithmetic::div_mod::lemma_fundamental_div_mod(p as int, g.width as int);
            }
            let xs: usize = p % (g.width as usize);
            let ys: usize = p / (g.width as usize);
            proof {
                assert(ys < g.height) by (nonlinear_arith)
                    requires p == g.width * ys + xs, 0 <= xs, p < g.width * g.height, g.width >= 1;
            }
            let v: u8 = gradient_at(g, xs as u32, ys as u32);
            let ghost before = data@;
            data.push(0);
            data.push(v);
            data.push(v);
            proof {
                assert(gradient_pixel(g.data@, g.width as int, g.height as int, data@, p as int));
                assert forall|q: int| 0 <= q < p + 1 implies #[trigger] gradient_pixel(g.data@, g.width as int, g.height as int, data@, q) by {
                    if q < p {
                        assert(gradient_pixel(g.data@, g.width as int, g.height as int, before, q));
                    }
                }
            }
            p += 1;
        }
        RgbImage { width: g.width, height: g.height, data }
    }

    /// The gradient view of the luminance of `img`, which must have at least one column.
    pub fn analyze_gradients(&self, img: &RgbImage) -> (out: RgbImage)
        requires
            img.wf(),
            img.width >= 1,
        ensures
            out.wf(),
            out.same_size(img),
            forall|q: int|
                0 <= q < img.width * img.height ==> #[trigger] gradient_pixel(
                    luma8_output(img.data@, img.width, img.height),
                    img.width as int,
                    img.height as int,
                    out.data@,
                    q,
                ),
    {
        let len: usize = img.data.len();
        let gray = to_luma8(img);
        proof {
            assert(gray.width * gray.height * 3 == len);
        }
        Self::gradient_view(&gray)
    }

    /// The gradient view of `img`; always produced.
    pub fn process(&self, img: &RgbImage) -> (r: Option<RgbImage>)
        requires
            img.wf(),
            img.width >= 1,
        ensures
            r matches Some(out) && out.wf() && out.same_size(img) && forall|q: int|
                0 <= q < img.width * img.height ==> #[trigger] gradient_pixel(
                    luma8_output(img.data@, img.width, img.height),
                    img.width as int,
                    img.height as int,
                    out.data@,
                    q,
                ),
    {
        Some(self.analyze_gradients(img))
    }

    /// The analysis name shown to users.
    pub fn name(&self) -> (s: &'static str)
        ensures
            s@ == "Gradient Forensics"@,
    {
        "Gradient Forensics"
    }

    /// What the analysis shows.
    pub fn description(&self) -> (s: &'static str)
        ensures
            s@ == "Analyzes gradient micro-discontinuities using Sobel operators to reveal AI-based inpainting. The algorithm computes horizontal and vertical Sobel gradients and examines them for unnatural edge discontinuities that commonly occur at the boundaries of inpainted regions. AI inpainting tends to produce subtle gradient anomalies that are invisible to the naked eye but detectable through this analysis. The output highlights areas with abnormal gradient patterns, where brighter pixels correspond to higher gradient inconsistency, helping to identify regions that may have been synthetically filled or removed."@,
    {
        "Analyzes gradient micro-discontinuities using Sobel operators to reveal AI-based inpainting. The algorithm computes horizontal and vertical Sobel gradients and examines them for unnatural edge discontinuities that commonly occur at the boundaries of inpainted regions. AI inpainting tends to produce subtle gradient anomalies that are invisible to the naked eye but detectable through this analysis. The output highlights areas with abnormal gradient patterns, where brighter pixels correspond to higher gradient inconsistency, helping to identify regions that may have been synthetically filled or removed."
    }

    /// No bibliographic reference.
    pub fn reference(&self) -> (s: &'static str)
        ensures
            s@ == ""@,
    {
        ""
    }
}

/// The constructor that the plugin host calls.
pub fn create_gradient_forensics_plugin() -> (p: GradientForensicsPlugin) {
    GradientForensicsPlugin
}

} // verus!
