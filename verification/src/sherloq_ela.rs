//! Error Level Analysis after Sherloq: the error through a contrast-stretch lookup table.
use vstd::prelude::*;
use crate::arith::{abs_diff, abs_diff_u8, clamp, min, scale_sat_u8};
use vstd::arithmetic::div_mod::{lemma_fundamental_div_mod, lemma_fundamental_div_mod_converse, lemma_mod_bound};
use crate::codec::jpeg_encoder_rgb_output;
use crate::raster::RgbImage;
use crate::recompress::recompress;

verus! {

/// The contrast stretch that maps `contrast..=255 - contrast` linearly onto `0..=255`,
/// clipping outside, and rounds to the nearest integer. The quotient is never half way
/// between two integers, since `255 - 2 * contrast` is odd.
pub open spec fn contrast_stretch(contrast: int, v: int) -> int {
    let d = 255 - 2 * contrast;
    if v <= contrast {
        0
    } else if v >= 255 - contrast {
        255
    } else {
        (2 * (v - contrast) * 255 + d) / (2 * d)
    }
}

/// The stretch stays within a byte and grows with `v`.
pub proof fn lemma_contrast_stretch_bounds(contrast: int, v: int)
    requires
        0 <= contrast <= 127,
        0 <= v <= 255,
    ensures
        0 <= contrast_stretch(contrast, v) <= 255,
{
    let d = 255 - 2 * contrast;
    if contrast < v && v < 255 - contrast {
        assert(2 * (v - contrast) * 255 + d <= 2 * d * 255 + d) by (nonlinear_arith)
            requires v - contrast <= d, d > 0;
        assert((2 * (v - contrast) * 255 + d) / (2 * d) <= 255) by (nonlinear_arith)
            requires 2 * (v - contrast) * 255 + d <= 2 * d * 255 + d, d > 0;
        assert((2 * (v - contrast) * 255 + d) / (2 * d) >= 0) by (nonlinear_arith)
            requires v - contrast > 0, d > 0;
    }
}

/// With no contrast the table is the identity.
pub proof fn lemma_contrast_zero_is_identity(v: int)
    requires
        0 <= v <= 255,
    ensures
        contrast_stretch(0, v) == v,
{
    if 0 < v && v < 255 {
        assert((2 * v * 255 + 255) / (510int) == v) by (nonlinear_arith)
            requires 0 < v < 255;
    }
}

/// The stretch never decreases: a brighter input never maps to a darker output.
pub proof fn lemma_contrast_stretch_monotone(contrast: int, v: int, w: int)
    requires
        0 <= contrast <= 127,
        0 <= v <= w <= 255,
    ensures
        contrast_stretch(contrast, v) <= contrast_stretch(contrast, w),
{
    lemma_contrast_stretch_bounds(contrast, v);
    lemma_contrast_stretch_bounds(contrast, w);
    let d = 255 - 2 * contrast;
    if contrast < v && w < 255 - contrast {
        assert((2 * (v - contrast) * 255 + d) / (2 * d) <= (2 * (w - contrast) * 255 + d) / (2 * d))
            by (nonlinear_arith)
            requires v <= w, d > 0;
    }
}

/// The stretch is symmetric about the middle grey: the mirror image of an input maps to the
/// mirror image of its output.
pub proof fn lemma_contrast_stretch_symmetric(contrast: int, v: int)
    requires
        0 <= contrast <= 127,
        0 <= v <= 255,
    ensures
        contrast_stretch(contrast, 255 - v) == 255 - contrast_stretch(contrast, v),
{
    let d = 255 - 2 * contrast;
    if contrast < v && v < 255 - contrast {
        let a = v - contrast;
        let n = 510 * a + d;
        let q = n / (2 * d);
        let r = n % (2 * d);
        lemma_fundamental_div_mod(n, 2 * d);
        lemma_mod_bound(n, 2 * d);
        let t = d * q;
        assert(2 * d * q == 2 * t) by (nonlinear_arith)
            requires t == d * q;
        assert(n == 2 * t + r);
        // `n` is odd while `2 * t` is even, so the remainder is not zero.
        assert(r != 0);
        let m = 510 * (d - a) + d;
        assert(m == 2 * d * (255 - q) + (2 * d - r)) by (nonlinear_arith)
            requires m == 510 * (d - a) + d, n == 510 * a + d, n == 2 * d * q + r;
        lemma_fundamental_div_mod_converse(m, 2 * d, 255 - q, 2 * d - r);
        assert(255 - v - contrast == d - a);
        assert(contrast_stretch(contrast, v) == q);
        assert(contrast_stretch(contrast, 255 - v) == m / (2 * d));
    }
}

/// The lookup table of `contrast_stretch(contrast, v)` for `v` in `0..=255`.
pub fn build_contrast_lut(contrast: i32) -> (lut: Vec<u8>)
    requires
        0 <= contrast <= 127,
    ensures
        lut@.len() == 256,
        forall|v: int| 0 <= v < 256 ==> lut@[v] == contrast_stretch(contrast as int, v),
{
    let mut lut: Vec<u8> = Vec::with_capacity(256);
    let d: i32 = 255 - 2 * contrast;
    let mut v: i32 = 0;
    while v < 256
        invariant
            0 <= contrast <= 127,
            d == 255 - 2 * contrast,
            0 <= v <= 256,
            lut@.len() == v,
            forall|u: int| 0 <= u < v ==> lut@[u] == contrast_stretch(contrast as int, u),
        decreases 256 - v,
    {
        proof {
            lemma_contrast_stretch_bounds(contrast as int, v as int);
        }
        let entry: u8 = if v <= contrast {
            0
        } else if v >= 255 - contrast {
            255
        } else {
            let num: i32 = 2 * (v - contrast) * 255 + d;
            (num / (2 * d)) as u8
        };
        lut.push(entry);
        v += 1;
    }
    lut
}

/// Each channel of `img` looked up in `lut`.
pub fn apply_lut(img: &RgbImage, lut: &Vec<u8>) -> (out: RgbImage)
    requires
        img.wf(),
        lut@.len() == 256,
    ensures
        out.wf(),
        out.same_size(img),
        forall|i: int| 0 <= i < out.data@.len() ==> out.data@[i] == lut@[img.data@[i] as int],
{
    let n: usize = img.data.len();
    let mut data: Vec<u8> = Vec::with_capacity(n);
    let mut i: usize = 0;
    while i < n
        invariant
            n == img.data@.len(),
            lut@.len() == 256,
            i <= n,
            data@.len() == i,
            forall|j: int| 0 <= j < i ==> data@[j] == lut@[img.data@[j] as int],
        decreases n - i,
    {
        data.push(lut[img.data[i] as usize]);
        i += 1;
    }
    RgbImage { width: img.width, height: img.height, data }
}

/// Error Level Analysis after Sherloq: the error between the image and its re-compressed
/// version, scaled (linearly or by square root) and passed through a contrast stretch.
pub struct SherloqElaPlugin {
    quality: i32,
    scale: i32,
    contrast: i32,
    linear: bool,
    grayscale: bool,
}

impl SherloqElaPlugin {
    /// The stored JPEG quality (clamped to `1..=100` when used).
    pub closed spec fn quality_spec(&self) -> i32 {
        self.quality
    }

    /// The stored error scale (clamped to `1..=100` when used).
    pub closed spec fn scale_spec(&self) -> i32 {
        self.scale
    }

    /// The stored contrast (clamped to `0..=100` when used).
    pub closed spec fn contrast_spec(&self) -> i32 {
        self.contrast
    }

    /// Whether the error is scaled linearly rather than by its square root.
    pub closed spec fn linear_spec(&self) -> bool {
        self.linear
    }

    /// Whether the view is rendered in gray.
    pub closed spec fn grayscale_spec(&self) -> bool {
        self.grayscale
    }

    /// Quality 75, scale 50, contrast 20, square-root scaling, in colour.
    pub fn new() -> (p: Self)
        ensures
            p.quality_spec() == 75,
            p.scale_spec() == 50,
            p.contrast_spec() == 20,
            !p.linear_spec(),
            !p.grayscale_spec(),
    {
        SherloqElaPlugin { quality: 75, scale: 50, contrast: 20, linear: false, grayscale: false }
    }

    /// The stored JPEG quality.
    pub fn quality(&self) -> (q: i32)
        ensures
            q == self.quality_spec(),
    {
        self.quality
    }

    /// The stored error scale.
    pub fn scale(&self) -> (s: i32)
        ensures
            s == self.scale_spec(),
    {
        self.scale
    }

    /// The stored contrast.
    pub fn contrast(&self) -> (c: i32)
        ensures
            c == self.contrast_spec(),
    {
        self.contrast
    }

    /// Whether the error is scaled linearly.
    pub fn linear(&self) -> (l: bool)
        ensures
            l == self.linear_spec(),
    {
        self.linear
    }

    /// Whether the view is rendered in gray.
    pub fn grayscale(&self) -> (g: bool)
        ensures
            g == self.grayscale_spec(),
    {
        self.grayscale
    }

    /// Stores the JPEG quality; the other settings stay.
    pub fn set_quality(&mut self, q: i32)
        ensures
            final(self).quality_spec() == q,
            final(self).scale_spec() == old(self).scale_spec(),
            final(self).contrast_spec() == old(self).contrast_spec(),
            final(self).linear_spec() == old(self).linear_spec(),
            final(self).grayscale_spec() == old(self).grayscale_spec(),
    {
        self.quality = q;
    }

    /// Stores the error scale; the other settings stay.
    pub fn set_scale(&mut self, s: i32)
        ensures
            final(self).scale_spec() == s,
            final(self).quality_spec() == old(self).quality_spec(),
            final(self).contrast_spec() == old(self).contrast_spec(),
            final(self).linear_spec() == old(self).linear_spec(),
            final(self).grayscale_spec() == old(self).grayscale_spec(),
    {
        self.scale = s;
    }

    /// Stores the contrast; the other settings stay.
    pub fn set_contrast(&mut self, c: i32)
        ensures
            final(self).contrast_spec() == c,
            final(self).quality_spec() == old(self).quality_spec(),
            final(self).scale_spec() == old(self).scale_spec(),
            final(self).linear_spec() == old(self).linear_spec(),
            final(self).grayscale_spec() == old(self).grayscale_spec(),
    {
        self.contrast = c;
    }

    /// Chooses linear or square-root scaling; the other settings stay.
    pub fn set_linear(&mut self, l: bool)
        ensures
            final(self).linear_spec() == l,
            final(self).quality_spec() == old(self).quality_spec(),
            final(self).scale_spec() == old(self).scale_spec(),
            final(self).contrast_spec() == old(self).contrast_spec(),
            final(self).grayscale_spec() == old(self).grayscale_spec(),
    {
        self.linear = l;
    }

    /// Chooses gray or colour rendering; the other settings stay.
    pub fn set_grayscale(&mut self, g: bool)
        ensures
            final(self).grayscale_spec() == g,
            final(self).quality_spec() == old(self).quality_spec(),
            final(self).scale_spec() == old(self).scale_spec(),
            final(self).contrast_spec() == old(self).contrast_spec(),
            final(self).linear_spec() == old(self).linear_spec(),
    {
        self.grayscale = g;
    }

    /// The JPEG quality used: the stored one clamped to `1..=100`.
    pub fn effective_quality(&self) -> (q: u8)
        ensures
            q == clamp(self.quality_spec() as int, 1, 100),
    {
        if self.quality < 1 { 1 } else if self.quality > 100 { 100 } else { self.quality as u8 }
    }

    /// The error scale used: the stored one clamped to `1..=100`.
    pub fn effective_scale(&self) -> (s: i32)
        ensures
            s == clamp(self.scale_spec() as int, 1, 100),
    {
        if self.scale < 1 { 1 } else if self.scale > 100 { 100 } else { self.scale }
    }

    /// The contrast used: the stored one clamped to `0..=100`.
    pub fn effective_contrast(&self) -> (c: i32)
        ensures
            c == clamp(self.contrast_spec() as int, 0, 100),
    {
        if self.contrast < 0 { 0 } else if self.contrast > 100 { 100 } else { self.contrast }
    }

    /// The image re-compressed at the quality used, or `None` where that fails.
    pub fn recompressed(&self, img: &RgbImage) -> (r: Option<RgbImage>)
        requires
            img.wf(),
        ensures
            jpeg_encoder_rgb_output(
                img.data@,
                img.width as u16,
                img.height as u16,
                clamp(self.quality_spec() as int, 1, 100) as u8,
            ) is None ==> r is None,
            r matches Some(c) ==> c.wf() && c.same_size(img),
    {
        recompress(img, self.effective_quality())
    }

    /// The linear-mode view: each channel's absolute error times `scale` (saturating at 255),
    /// looked up in `lut`.
    pub fn linear_view(img: &RgbImage, compressed: &RgbImage, scale: i32, lut: &Vec<u8>) -> (out:
        RgbImage)
        requires
            img.wf(),
            compressed.wf(),
            img.same_size(compressed),
            1 <= scale <= 100,
            lut@.len() == 256,
        ensures
            out.wf(),
            out.same_size(img),
            forall|i: int|
                0 <= i < out.data@.len() ==> out.data@[i] == lut@[min(
                    abs_diff(img.data@[i] as int, compressed.data@[i] as int) * scale,
                    255,
                )],
    {
        let n: usize = img.data.len();
        let mut data: Vec<u8> = Vec::with_capacity(n);
        let mut i: usize = 0;
        while i < n
            invariant
                n == img.data@.len(),
                n == compressed.data@.len(),
                1 <= scale <= 100,
                lut@.len() == 256,
                i <= n,
                data@.len() == i,
                forall|j: int|
                    0 <= j < i ==> data@[j] == lut@[min(
                        abs_diff(img.data@[j] as int, compressed.data@[j] as int) * scale,
                        255,
                    )],
            decreases n - i,
        {
            let d: u8 = abs_diff_u8(img.data[i], compressed.data[i]);
            let v: u8 = scale_sat_u8(d, scale as u32);
            data.push(lut[v as usize]);
            i += 1;
        }
        RgbImage { width: img.width, height: img.height, data }
    }

    /// The analysis name shown to users.
    pub fn name(&self) -> (s: &'static str)
        ensures
            s@ == "Sherloq ELA"@,
    {
        "Sherloq ELA"
    }

    /// What the analysis shows.
    pub fn description(&self) -> (s: &'static str)
        ensures
            s@ == "Error Level Analysis implementation based on Sherloq (github.com/GuidoBartoli/sherloq) by GuidoBartoli. The image is re-compressed at a given JPEG quality, and the absolute difference between original and compressed versions is computed. In non-linear mode (default), the difference is square-root scaled to enhance subtle compression artifacts. A contrast stretch LUT maps the [contrast, 255-contrast] intensity range to full [0, 255] for improved visibility. Brighter regions indicate higher error levels that may correspond to tampered areas with different compression histories."@,
    {
        "Error Level Analysis implementation based on Sherloq (github.com/GuidoBartoli/sherloq) by GuidoBartoli. The image is re-compressed at a given JPEG quality, and the absolute difference between original and compressed versions is computed. In non-linear mode (default), the difference is square-root scaled to enhance subtle compression artifacts. A contrast stretch LUT maps the [contrast, 255-contrast] intensity range to full [0, 255] for improved visibility. Brighter regions indicate higher error levels that may correspond to tampered areas with different compression histories."
    }

    /// Where the method comes from.
    pub fn reference(&self) -> (s: &'static str)
        ensures
            s@ == "https://github.com/GuidoBartoli/sherloq"@,
    {
        "https://github.com/GuidoBartoli/sherloq"
    }
}

/// The constructor that the plugin host calls.
pub fn create_sherloq_ela_plugin() -> (p: SherloqElaPlugin)
    ensures
        p.quality_spec() == 75,
        p.scale_spec() == 50,
        p.contrast_spec() == 20,
        !p.linear_spec(),
        !p.grayscale_spec(),
{
    SherloqElaPlugin::new()
}

} // verus!
