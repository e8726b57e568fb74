//! Noise analysis after Forensically: the residual of a separable median filter, amplified and
//! centred on gray, optionally equalized, and blended over the original.
use vstd::prelude::*;
use crate::arith::{blend255, blend255_u8, clamp};
use crate::codec::{
    is_kernel_median, is_median_filtered, kernel_count_below, kernel_value, median_filter_output,
    median_filter_rgb, padded_at,
};
use crate::raster::RgbImage;
use vstd::arithmetic::div_mod::lemma_fundamental_div_mod;

verus! {

/// One channel of the noise layer: the residual `orig - median` times `amp`, plus 128, clamped
/// to `0..=255`.
pub open spec fn noise_channel(orig: int, median: int, amp: int) -> int {
    clamp((orig - median) * amp + 128, 0, 255)
}

/// The intensity of pixel `p`: the integer mean of its three channels.
pub open spec fn intensity(data: Seq<u8>, p: int) -> int {
    (data[3 * p] + data[3 * p + 1] + data[3 * p + 2]) / 3
}

/// How many of the first `k` pixels have intensity at most `v`.
pub open spec fn count_at_most(data: Seq<u8>, k: int, v: int) -> int
    decreases k,
{
    if k <= 0 {
        0
    } else {
        count_at_most(data, k - 1, v) + if intensity(data, k - 1) <= v { 1int } else { 0int }
    }
}

/// The median of `img` filtered first along rows and then along columns, each with radius 1.
pub open spec fn separable_median(img: RgbImage) -> Seq<u8> {
    median_filter_output(
        median_filter_output(img.data@, img.width, img.height, 1, 0),
        img.width,
        img.height,
        0,
        1,
    )
}

/// Every pixel of the row-major RGB buffer `data` of `n` pixels has the colour of the first.
pub open spec fn one_colour(data: Seq<u8>, n: int) -> bool {
    forall|p: int, k: int| 0 <= p < n && 0 <= k < 3 ==> #[trigger] data[3 * p + k] == data[k]
}

/// In an image of one colour every padded position shows that colour.
proof fn lemma_padded_one_colour(pixels: Seq<u8>, width: int, height: int, x: int, y: int, c: int)
    requires
        width >= 1,
        height >= 1,
        pixels.len() == width * height * 3,
        one_colour(pixels, width * height),
        0 <= c < 3,
    ensures
        padded_at(pixels, width, height, x, y, c) == pixels[c] as int,
{
    let cx = clamp(x, 0, width - 1);
    let cy = clamp(y, 0, height - 1);
    let p = cy * width + cx;
    assert(0 <= p < width * height) by (nonlinear_arith)
        requires p == cy * width + cx, 0 <= cx < width, 0 <= cy < height;
    assert((cy * width + cx) * 3 + c == 3 * p + c);
    assert(pixels[3 * p + c] == pixels[c]);
}

/// Where the first `k` kernel values all equal `v`, they are all below `m` or none is.
proof fn lemma_count_uniform(
    pixels: Seq<u8>,
    width: int,
    height: int,
    rx: int,
    ry: int,
    x: int,
    y: int,
    c: int,
    m: int,
    k: int,
    or_equal: bool,
    v: int,
)
    requires
        k >= 0,
        forall|j: int| 0 <= j < k ==> #[trigger] kernel_value(pixels, width, height, rx, ry, x, y, c, j) == v,
    ensures
        kernel_count_below(pixels, width, height, rx, ry, x, y, c, m, k, or_equal) == if (if or_equal {
            v <= m
        } else {
            v < m
        }) {
            k
        } else {
            0
        },
    decreases k,
{
    if k > 0 {
        assert(kernel_value(pixels, width, height, rx, ry, x, y, c, k - 1) == v);
        lemma_count_uniform(pixels, width, height, rx, ry, x, y, c, m, k - 1, or_equal, v);
    }
}

/// The median of a kernel whose values all equal `v` is `v`.
proof fn lemma_median_of_uniform(
    pixels: Seq<u8>,
    width: int,
    height: int,
    rx: int,
    ry: int,
    x: int,
    y: int,
    c: int,
    m: int,
    v: int,
)
    requires
        rx >= 0,
        ry >= 0,
        is_kernel_median(pixels, width, height, rx, ry, x, y, c, m),
        forall|j: int| 0 <= j < (2 * rx + 1) * (2 * ry + 1) ==> #[trigger] kernel_value(
            pixels,
            width,
            height,
            rx,
            ry,
            x,
            y,
            c,
            j,
        ) == v,
    ensures
        m == v,
{
    let n = (2 * rx + 1) * (2 * ry + 1);
    assert(n >= 1) by (nonlinear_arith)
        requires rx >= 0, ry >= 0, n == (2 * rx + 1) * (2 * ry + 1);
    lemma_count_uniform(pixels, width, height, rx, ry, x, y, c, m, n, false, v);
    lemma_count_uniform(pixels, width, height, rx, ry, x, y, c, m, n, true, v);
}

/// Median filtering an image of one colour gives back that colour everywhere.
proof fn lemma_median_of_one_colour(pixels: Seq<u8>, width: int, height: int, rx: int, ry: int, out: Seq<u8>)
    requires
        width >= 0,
        height >= 0,
        rx >= 0,
        ry >= 0,
        pixels.len() == width * height * 3,
        out.len() == width * height * 3,
        one_colour(pixels, width * height),
        is_median_filtered(pixels, width, height, rx, ry, out),
    ensures
        forall|i: int| 0 <= i < out.len() ==> #[trigger] out[i] == pixels[i % 3],
        width * height > 0 ==> forall|i: int| 0 <= i < out.len() ==> out[i] == pixels[i],
{
    assert forall|i: int| 0 <= i < out.len() implies #[trigger] out[i] == pixels[i % 3] by {
        let p = i / 3;
        let c = i % 3;
        assert(width >= 1 && height >= 1) by (nonlinear_arith)
            requires 0 <= i < width * height * 3, width >= 0, height >= 0;
        lemma_fundamental_div_mod(i, 3);
        lemma_fundamental_div_mod(p, width);
        let x = p % width;
        let y = p / width;
        assert(0 <= p < width * height) by (nonlinear_arith)
            requires i == 3 * p + c, 0 <= c < 3, 0 <= i < width * height * 3;
        assert(0 <= y < height) by (nonlinear_arith)
            requires p == width * y + x, 0 <= x < width, 0 <= p < width * height;
        assert((y * width + x) * 3 + c == i) by (nonlinear_arith)
            requires p == width * y + x, i == 3 * p + c;
        assert(is_kernel_median(pixels, width, height, rx, ry, x, y, c, out[i] as int));
        assert forall|j: int| 0 <= j < (2 * rx + 1) * (2 * ry + 1) implies #[trigger] kernel_value(
            pixels,
            width,
            height,
            rx,
            ry,
            x,
            y,
            c,
            j,
        ) == pixels[c] as int by {
            lemma_padded_one_colour(
                pixels,
                width,
                height,
                x + j % (2 * rx + 1) - rx,
                y + j / (2 * rx + 1) - ry,
                c,
            );
        }
        lemma_median_of_uniform(pixels, width, height, rx, ry, x, y, c, out[i] as int, pixels[c] as int);
    }
    if width * height > 0 {
        assert forall|i: int| 0 <= i < out.len() implies out[i] == pixels[i] by {
            lemma_fundamental_div_mod(i, 3);
            assert(0 <= i / 3 < width * height) by (nonlinear_arith)
                requires i == 3 * (i / 3) + i % 3, 0 <= i % 3 < 3, 0 <= i < width * height * 3;
            assert(pixels[3 * (i / 3) + i % 3] == pixels[i % 3]);
        }
    }
}

/// The noise layer of `orig` against its median-filtered version `median`.
pub fn noise_view(orig: &RgbImage, median: &RgbImage, amp: u32) -> (out: RgbImage)
    requires
        orig.wf(),
        median.wf(),
        orig.same_size(median),
        1 <= amp <= 256,
    ensures
        out.wf(),
        out.same_size(orig),
        forall|i: int|
            0 <= i < out.data@.len() ==> out.data@[i] == noise_channel(
                orig.data@[i] as int,
                median.data@[i] as int,
                amp as int,
            ),
{
    let n: usize = orig.data.len();
    let mut data: Vec<u8> = Vec::with_capacity(n);
    let mut i: usize = 0;
    while i < n
        invariant
            n == orig.data@.len(),
            n == median.data@.len(),
            1 <= amp <= 256,
            i <= n,
            data@.len() == i,
            forall|j: int|
                0 <= j < i ==> data@[j] == noise_channel(
                    orig.data@[j] as int,
                    median.data@[j] as int,
                    amp as int,
                ),
        decreases n - i,
    {
        let d: i64 = orig.data[i] as i64 - median.data[i] as i64;
        proof {
            assert(-255 * 256 <= d * (amp as int) <= 255 * 256) by (nonlinear_arith)
                requires -255 <= d <= 255, 1 <= amp <= 256;
        }
        let v: i64 = d * (amp as i64) + 128;
        let c: u8 = if v < 0 { 0 } else if v > 255 { 255 } else { v as u8 };
        data.push(c);
        i += 1;
    }
    RgbImage { width: orig.width, height: orig.height, data }
}

/// `overlay` blended over `orig` at opacity `opacity / 255`, rounded to the nearest integer.
pub fn blend_overlay(orig: &RgbImage, overlay: &RgbImage, opacity: u8) -> (out: RgbImage)
    requires
        orig.wf(),
        overlay.wf(),
        orig.same_size(overlay),
    ensures
        out.wf(),
        out.same_size(orig),
        forall|i: int|
            0 <= i < out.data@.len() ==> out.data@[i] == blend255(
                orig.data@[i] as int,
                overlay.data@[i] as int,
                opacity as int,
            ),
{
    let n: usize = orig.data.len();
    let mut data: Vec<u8> = Vec::with_capacity(n);
    let mut i: usize = 0;
    while i < n
        invariant
            n == orig.data@.len(),
            n == overlay.data@.len(),
            i <= n,
            data@.len() == i,
            forall|j: int|
                0 <= j < i ==> data@[j] == blend255(
                    orig.data@[j] as int,
                    overlay.data@[j] as int,
                    opacity as int,
                ),
        decreases n - i,
    {
        data.push(blend255_u8(orig.data[i], overlay.data[i], opacity));
        i += 1;
    }
    RgbImage { width: orig.width, height: orig.height, data }
}

/// Counting up to one more pixel adds one exactly when its intensity is at most `v`.
proof fn lemma_count_monotone(data: Seq<u8>, k: int, v: int, w: int)
    requires
        0 <= k,
        v <= w,
    ensures
        count_at_most(data, k, v) <= count_at_most(data, k, w),
        0 <= count_at_most(data, k, v) <= k,
    decreases k,
{
    if k > 0 {
        lemma_count_monotone(data, k - 1, v, w);
    }
}

/// How many of the first `k` pixels have intensity exactly `v`.
pub open spec fn count_equal(data: Seq<u8>, k: int, v: int) -> int
    decreases k,
{
    if k <= 0 {
        0
    } else {
        count_equal(data, k - 1, v) + if intensity(data, k - 1) == v { 1int } else { 0int }
    }
}

/// The pixels of intensity at most `v` are those of intensity at most `v - 1` and those of
/// intensity `v`.
proof fn lemma_count_split(data: Seq<u8>, k: int, v: int)
    requires
        0 <= k,
    ensures
        count_at_most(data, k, v) == count_at_most(data, k, v - 1) + count_equal(data, k, v),
    decreases k,
{
    if k > 0 {
        lemma_count_split(data, k - 1, v);
    }
}

/// No pixel has a negative intensity.
proof fn lemma_count_negative(data: Seq<u8>, k: int)
    requires
        0 <= k,
    ensures
        count_at_most(data, k, -1) == 0,
    decreases k,
{
    if k > 0 {
        lemma_count_negative(data, k - 1);
    }
}

/// The intensity of a pixel of an image is at most 255.
pub fn pixel_intensity(img: &RgbImage, p: usize) -> (v: usize)
    requires
        img.wf(),
        p < img.width * img.height,
    ensures
        v == intensity(img.data@, p as int),
        v < 256,
{
    let len: usize = img.data.len();
    let s: u32 = img.data[3 * p] as u32 + img.data[3 * p + 1] as u32 + img.data[3 * p + 2] as u32;
    (s / 3) as usize
}

/// The cumulative intensity histogram of an image: entry `v` counts the pixels of intensity at
/// most `v`; with it, the first intensity whose count is positive (0 for an empty image).
pub fn intensity_cdf(img: &RgbImage) -> (r: (Vec<u32>, usize))
    requires
        img.wf(),
        img.width * img.height <= u32::MAX,
    ensures
        r.0@.len() == 256,
        forall|v: int| 0 <= v < 256 ==> r.0@[v] == count_at_most(img.data@, img.width * img.height, v),
        r.1 < 256,
        r.0@[r.1 as int] > 0 || r.1 == 0,
        forall|v: int| 0 <= v < r.1 ==> r.0@[v] == 0,
{
    let len: usize = img.data.len();
    let npix: usize = len / 3;
    let mut hist: Vec<u32> = vec![0u32; 256];
    let mut p: usize = 0;
    while p < npix
        invariant
            len == img.data@.len(),
            npix == img.width * img.height,
            img.wf(),
            npix <= u32::MAX,
            p <= npix,
            hist@.len() == 256,
            forall|u: int| 0 <= u < 256 ==> #[trigger] hist@[u] == count_equal(img.data@, p as int, u),
            forall|u: int| 0 <= u < 256 ==> #[trigger] hist@[u] <= p,
        decreases npix - p,
    {
        let v: usize = pixel_intensity(img, p);
        let old_count: u32 = hist[v];
        hist.set(v, old_count + 1);
        p += 1;
    }
    let mut cdf: Vec<u32> = Vec::with_capacity(256);
    let mut acc: u32 = 0;
    let mut v: usize = 0;
    proof {
        lemma_count_negative(img.data@, npix as int);
    }
    while v < 256
        invariant
            len == img.data@.len(),
            npix == img.width * img.height,
            npix <= u32::MAX,
            v <= 256,
            hist@.len() == 256,
            forall|u: int| 0 <= u < 256 ==> #[trigger] hist@[u] == count_equal(img.data@, npix as int, u),
            acc == count_at_most(img.data@, npix as int, v - 1),
            cdf@.len() == v,
            forall|u: int| 0 <= u < v ==> cdf@[u] == count_at_most(img.data@, npix as int, u),
        decreases 256 - v,
    {
        proof {
            lemma_count_split(img.data@, npix as int, v as int);
            lemma_count_monotone(img.data@, npix as int, v as int, v as int);
        }
        acc = acc + hist[v];
        cdf.push(acc);
        v += 1;
    }
    let mut first: usize = 0;
    while first < 256 && cdf[first] == 0
        invariant
            cdf@.len() == 256,
            first <= 256,
            forall|u: int| 0 <= u < first ==> cdf@[u] == 0,
        decreases 256 - first,
    {
        first += 1;
    }
    if first == 256 {
        (cdf, 0)
    } else {
        (cdf, first)
    }
}

/// Noise analysis after Forensically.
pub struct NoiseAnalysisPlugin {
    amplitude: u8,
    equalize_hist: u8,
    opacity: u8,
}

impl NoiseAnalysisPlugin {
    /// The stored amplitude, one less than the noise gain.
    pub closed spec fn amplitude_spec(&self) -> u8 {
        self.amplitude
    }

    /// The stored equalization flag (non-zero: equalize).
    pub closed spec fn equalize_hist_spec(&self) -> u8 {
        self.equalize_hist
    }

    /// The stored opacity of the noise layer, in 255ths.
    pub closed spec fn opacity_spec(&self) -> u8 {
        self.opacity
    }

    /// Gain 1, equalized, opacity 242/255 (0.95).
    pub fn new() -> (p: Self)
        ensures
            p.amplitude_spec() == 0,
            p.equalize_hist_spec() == 255,
            p.opacity_spec() == 242,
    {
        NoiseAnalysisPlugin { amplitude: 0, equalize_hist: 255, opacity: 242 }
    }

    /// The stored amplitude.
    pub fn amplitude(&self) -> (a: u8)
        ensures
            a == self.amplitude_spec(),
    {
        self.amplitude
    }

    /// Whether the noise layer is equalized.
    pub fn equalize_hist(&self) -> (e: bool)
        ensures
            e == (self.equalize_hist_spec() != 0),
    {
        self.equalize_hist != 0
    }

    /// The stored opacity, in 255ths.
    pub fn opacity(&self) -> (o: u8)
        ensures
            o == self.opacity_spec(),
    {
        self.opacity
    }

    /// Stores the amplitude (the gain is one more); the other settings stay.
    pub fn set_amplitude(&mut self, a: u8)
        ensures
            final(self).amplitude_spec() == a,
            final(self).equalize_hist_spec() == old(self).equalize_hist_spec(),
            final(self).opacity_spec() == old(self).opacity_spec(),
    {
        self.amplitude = a;
    }

    /// Turns equalization on (stored as 255) or off (stored as 0); the other settings stay.
    pub fn set_equalize_hist(&mut self, on: bool)
        ensures
            final(self).equalize_hist_spec() == (if on { 255u8 } else { 0u8 }),
            final(self).amplitude_spec() == old(self).amplitude_spec(),
            final(self).opacity_spec() == old(self).opacity_spec(),
    {
        self.equalize_hist = if on { 255 } else { 0 };
    }

    /// Stores the opacity, in 255ths; the other settings stay.
    pub fn set_opacity(&mut self, o: u8)
        ensures
            final(self).opacity_spec() == o,
            final(self).amplitude_spec() == old(self).amplitude_spec(),
            final(self).equalize_hist_spec() == old(self).equalize_hist_spec(),
    {
        self.opacity = o;
    }

    /// The noise layer of `img`: each channel's residual against the separable median (radius 1
    /// along rows, then along columns), times the gain, centred on 128 and clamped. An image of
    /// one colour has no noise: its layer is gray 128 throughout.
    pub fn noise_layer(&self, img: &RgbImage) -> (out: RgbImage)
        requires
            img.wf(),
            img.width + 1 <= i32::MAX,
            img.height + 1 <= i32::MAX,
        ensures
            out.wf(),
            out.same_size(img),
            forall|i: int|
                0 <= i < out.data@.len() ==> out.data@[i] == noise_channel(
                    img.data@[i] as int,
                    separable_median(*img)[i] as int,
                    self.amplitude_spec() as int + 1,
                ),
            is_median_filtered(
                img.data@,
                img.width as int,
                img.height as int,
                1,
                0,
                median_filter_output(img.data@, img.width, img.height, 1, 0),
            ),
            is_median_filtered(
                median_filter_output(img.data@, img.width, img.height, 1, 0),
                img.width as int,
                img.height as int,
                0,
                1,
                separable_median(*img),
            ),
            one_colour(img.data@, img.width * img.height) ==> forall|i: int|
                0 <= i < out.data@.len() ==> out.data@[i] == 128,
    {
        assert((2 * 1u32 + 1) * (2 * 0u32 + 1) <= u32::MAX) by (nonlinear_arith);
        assert((2 * 0u32 + 1) * (2 * 1u32 + 1) <= u32::MAX) by (nonlinear_arith);
        let horizontal = median_filter_rgb(img, 1, 0);
        let median = median_filter_rgb(&horizontal, 0, 1);
        let out = noise_view(img, &median, self.amplitude as u32 + 1);
        proof {
            let w = img.width as int;
            let h = img.height as int;
            if one_colour(img.data@, w * h) {
                lemma_median_of_one_colour(img.data@, w, h, 1, 0, horizontal.data@);
                if w * h > 0 {
                    assert forall|p: int, k: int| 0 <= p < w * h && 0 <= k < 3 implies #[trigger] horizontal.data@[3
                        * p + k] == horizontal.data@[k] by {
                        assert(0 <= 3 * p + k < w * h * 3);
                        assert(horizontal.data@[3 * p + k] == img.data@[3 * p + k]);
                        assert(horizontal.data@[k] == img.data@[k]);
                        assert(img.data@[3 * p + k] == img.data@[k]);
                    }
                    lemma_median_of_one_colour(horizontal.data@, w, h, 0, 1, median.data@);
                    assert forall|i: int| 0 <= i < out.data@.len() implies out.data@[i] == 128 by {
                        assert(median.data@[i] == horizontal.data@[i]);
                        assert(horizontal.data@[i] == img.data@[i]);
                    }
                }
            }
        }
        out
    }

    /// The noise layer blended over the original at the stored opacity.
    pub fn blend(&self, img: &RgbImage, layer: &RgbImage) -> (out: RgbImage)
        requires
            img.wf(),
            layer.wf(),
            img.same_size(layer),
        ensures
            out.wf(),
            out.same_size(img),
            forall|i: int|
                0 <= i < out.data@.len() ==> out.data@[i] == blend255(
                    img.data@[i] as int,
                    layer.data@[i] as int,
                    self.opacity_spec() as int,
                ),
    {
        blend_overlay(img, layer, self.opacity)
    }

    /// The analysis name shown to users.
    pub fn name(&self) -> (s: &'static str)
        ensures
            s@ == "forensically Noise Analysis"@,
    {
        "forensically Noise Analysis"
    }

    /// What the analysis shows.
    pub fn description(&self) -> (s: &'static str)
        ensures
            s@ == "Noise analysis using separable median filter. Parameters: Noise Amplitude (1–100), Equalize Histogram (0/1), Opacity (0–1)."@,
    {
        "Noise analysis using separable median filter. Parameters: Noise Amplitude (1–100), Equalize Histogram (0/1), Opacity (0–1)."
    }

    /// Where the method is described.
    pub fn reference(&self) -> (s: &'static str)
        ensures
            s@ == "https://29a.ch/2015/08/21/noise-analysis-for-image-forensics"@,
    {
        "https://29a.ch/2015/08/21/noise-analysis-for-image-forensics"
    }
}

/// The constructor that the plugin host calls.
pub fn create_noise_analysis_plugin() -> (p: NoiseAnalysisPlugin)
    ensures
        p.amplitude_spec() == 0,
        p.equalize_hist_spec() == 255,
        p.opacity_spec() == 242,
{
    NoiseAnalysisPlugin::new()
}

} // verus!
