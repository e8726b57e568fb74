//! Basic Error Level Analysis: the amplified difference between an image and its re-saved JPEG.
use vstd::prelude::*;
use crate::arith::{abs_diff, abs_diff_u8, min, scale_sat_u8};
use crate::codec::image_jpeg_output;
use crate::raster::RgbImage;
use crate::recompress::resave;
use vstd::arithmetic::div_mod::{lemma_fundamental_div_mod, lemma_fundamental_div_mod_converse, lemma_mod_bound};

verus! {

/// The gain applied to the error levels to make them visible.
pub const ELA_GAIN: u32 = 8;

/// The JPEG quality of the re-saved copy.
pub const ELA_QUALITY: u8 = 90;

/// Where byte `j` of an image with rows of `w` pixels lies in an image with rows of `w2`
/// pixels: the same channel of the pixel at the same column and row.
pub open spec fn source_index(w: int, w2: int, j: int) -> int {
    (((j / 3) / w) * w2 + (j / 3) % w) * 3 + j % 3
}

/// Byte `j` of a `w` by `h` RGB buffer is channel `j % 3` of the pixel at column
/// `(j / 3) % w` and row `(j / 3) / w`.
proof fn lemma_pixel_decompose(w: int, h: int, j: int)
    requires
        w >= 0,
        h >= 0,
        0 <= j < w * h * 3,
    ensures
        w > 0,
        0 <= j % 3 < 3,
        0 <= (j / 3) % w < w,
        0 <= (j / 3) / w < h,
        j == (((j / 3) / w) * w + (j / 3) % w) * 3 + j % 3,
{
    assert(w > 0 && h > 0) by (nonlinear_arith)
        requires 0 <= j < w * h * 3, w >= 0, h >= 0;
    lemma_fundamental_div_mod(j, 3);
    lemma_fundamental_div_mod(j / 3, w);
    lemma_mod_bound(j, 3);
    lemma_mod_bound(j / 3, w);
    assert(j == (((j / 3) / w) * w + (j / 3) % w) * 3 + j % 3) by (nonlinear_arith)
        requires j == 3 * (j / 3) + j % 3, j / 3 == w * ((j / 3) / w) + (j / 3) % w;
    assert(j / 3 < w * h) by (nonlinear_arith)
        requires j == 3 * (j / 3) + j % 3, j % 3 >= 0, j < w * h * 3;
    assert((j / 3) / w < h) by (nonlinear_arith)
        requires j / 3 == w * ((j / 3) / w) + (j / 3) % w, (j / 3) % w >= 0, j / 3 < w * h, w > 0;
    assert(0 <= (j / 3) / w) by (nonlinear_arith)
        requires j / 3 >= 0, w > 0;
}

/// The byte of channel `c` of pixel `(x, y)` splits back into that channel, column and row.
proof fn lemma_pixel_index(w: int, h: int, x: int, y: int, c: int)
    requires
        0 <= x < w,
        0 <= y < h,
        0 <= c < 3,
    ensures
        0 <= (y * w + x) * 3 + c < w * h * 3,
        ((y * w + x) * 3 + c) % 3 == c,
        ((y * w + x) * 3 + c) / 3 == y * w + x,
        (y * w + x) % w == x,
        (y * w + x) / w == y,
{
    assert(0 <= (y * w + x) * 3 + c < w * h * 3) by (nonlinear_arith)
        requires 0 <= x < w, 0 <= y < h, 0 <= c < 3;
    lemma_fundamental_div_mod_converse((y * w + x) * 3 + c, 3, y * w + x, c);
    lemma_fundamental_div_mod_converse(y * w + x, w, y, x);
}

/// The byte that pairs with byte `j` of `img1` lies inside `img2`.
proof fn lemma_source_inside(img1: RgbImage, img2: RgbImage, j: int)
    requires
        img1.wf(),
        img2.wf(),
        img1.width <= img2.width,
        img1.height <= img2.height,
        0 <= j < img1.data@.len(),
    ensures
        0 <= source_index(img1.width as int, img2.width as int, j) < img2.data@.len(),
{
    let w = img1.width as int;
    let w2 = img2.width as int;
    lemma_pixel_decompose(w, img1.height as int, j);
    let x = (j / 3) % w;
    let y = (j / 3) / w;
    assert(0 <= (y * w2 + x) * 3 + j % 3 < w2 * img2.height * 3) by (nonlinear_arith)
        requires 0 <= x < w, w <= w2, 0 <= y < img1.height, img1.height <= img2.height, 0 <= j % 3 < 3;
}

/// Basic Error Level Analysis, which reveals regions with inconsistent JPEG compression.
pub struct ELAPlugin;

impl ELAPlugin {
    /// The per-channel absolute difference between `img1` and the pixels of `img2` at the same
    /// positions; `img2` may be larger than `img1`, and the result has the size of `img1`.
    pub fn compute_difference(&self, img1: &RgbImage, img2: &RgbImage) -> (diff: RgbImage)
        requires
            img1.wf(),
            img2.wf(),
            img1.width <= img2.width,
            img1.height <= img2.height,
        ensures
            diff.wf(),
            diff.same_size(img1),
            forall|x: int, y: int, c: int|
                0 <= x < img1.width && 0 <= y < img1.height && 0 <= c < 3 ==> #[trigger] diff.at(x, y, c)
                    == abs_diff(img1.at(x, y, c) as int, img2.at(x, y, c) as int),
            img1.same_size(img2) ==> forall|i: int|
                0 <= i < diff.data@.len() ==> diff.data@[i] == abs_diff(
                    img1.data@[i] as int,
                    img2.data@[i] as int,
                ),
    {
        let n: usize = img1.data.len();
        let w: usize = img1.width as usize;
        let w2: usize = img2.width as usize;
        let n2: usize = img2.data.len();
        let mut data: Vec<u8> = Vec::with_capacity(n);
        let mut i: usize = 0;
        while i < n
            invariant
                n == img1.data@.len(),
                img1.wf(),
                img2.wf(),
                img1.width <= img2.width,
                img1.height <= img2.height,
                w == img1.width,
                w2 == img2.width,
                n2 == img2.data@.len(),
                i <= n,
                data@.len() == i,
                forall|j: int|
                    0 <= j < i ==> data@[j] == abs_diff(
                        img1.data@[j] as int,
                        img2.data@[source_index(w as int, w2 as int, j)] as int,
                    ),
            decreases n - i,
        {
            proof {
                lemma_pixel_decompose(w as int, img1.height as int, i as int);
                lemma_source_inside(*img1, *img2, i as int);
            }
            let p: usize = i / 3;
            let x: usize = p % w;
            let y: usize = p / w;
            proof {
                assert(source_index(w as int, w2 as int, i as int) == (y * w2 + x) * 3 + i % 3);
                assert((y * w2 + x) * 3 + i % 3 < n2);
                assert(y * w2 + x <= (y * w2 + x) * 3 + i % 3);
            }
            let k: usize = (y * w2 + x) * 3 + i % 3;
            data.push(abs_diff_u8(img1.data[i], img2.data[k]));
            i += 1;
        }
        let diff = RgbImage { width: img1.width, height: img1.height, data };
        proof {
            assert forall|x: int, y: int, c: int|
                0 <= x < img1.width && 0 <= y < img1.height && 0 <= c < 3 implies #[trigger] diff.at(x, y, c)
                    == abs_diff(img1.at(x, y, c) as int, img2.at(x, y, c) as int) by {
                lemma_pixel_index(w as int, img1.height as int, x, y, c);
                let j = (y * w + x) * 3 + c;
                assert(source_index(w as int, w2 as int, j) == (y * w2 + x) * 3 + c);
            }
            if img1.same_size(img2) {
                assert forall|j: int| 0 <= j < n implies source_index(w as int, w2 as int, j) == j by {
                    lemma_pixel_decompose(w as int, img1.height as int, j);
                }
            }
        }
        diff
    }

    /// Every channel multiplied by `factor`, saturating at 255.
    pub fn amplify_image(&self, img: &RgbImage, factor: u32) -> (out: RgbImage)
        requires
            img.wf(),
        ensures
            out.wf(),
            out.same_size(img),
            forall|i: int|
                0 <= i < out.data@.len() ==> out.data@[i] == min(img.data@[i] * factor, 255),
    {
        let n: usize = img.data.len();
        let mut data: Vec<u8> = Vec::with_capacity(n);
        let mut i: usize = 0;
        while i < n
            invariant
                n == img.data@.len(),
                i <= n,
                data@.len() == i,
                forall|j: int| 0 <= j < i ==> data@[j] == min(img.data@[j] * factor, 255),
            decreases n - i,
        {
            data.push(scale_sat_u8(img.data[i], factor));
            i += 1;
        }
        RgbImage { width: img.width, height: img.height, data }
    }

    /// The analysis name shown to users.
    pub fn name(&self) -> (s: &'static str)
        ensures
            s@ == "ELA"@,
    {
        "ELA"
    }

    /// What the analysis shows.
    pub fn description(&self) -> (s: &'static str)
        ensures
            s@ == "Error Level Analysis (ELA) detects regions with inconsistent JPEG compression levels. The algorithm re-saves the image at a known JPEG quality setting and computes the per-pixel absolute difference between the original and the re-compressed version. Areas that were originally saved at a different JPEG quality will exhibit a different error pattern than the rest of the image. This technique is effective at revealing spliced regions, especially when the source image has a different compression history than the composite. Brighter pixels in the output indicate higher error levels and potential tampered regions, while uniformly dark areas suggest consistent compression throughout."@,
    {
        "Error Level Analysis (ELA) detects regions with inconsistent JPEG compression levels. The algorithm re-saves the image at a known JPEG quality setting and computes the per-pixel absolute difference between the original and the re-compressed version. Areas that were originally saved at a different JPEG quality will exhibit a different error pattern than the rest of the image. This technique is effective at revealing spliced regions, especially when the source image has a different compression history than the composite. Brighter pixels in the output indicate higher error levels and potential tampered regions, while uniformly dark areas suggest consistent compression throughout."
    }

    /// No bibliographic reference.
    pub fn reference(&self) -> (s: &'static str)
        ensures
            s@ == ""@,
    {
        ""
    }

    /// The error-level view of `img` against its re-compressed version: each channel's
    /// absolute difference, times eight, saturating at 255.
    pub fn process_recompressed(&self, img: &RgbImage, compressed: &RgbImage) -> (out: RgbImage)
        requires
            img.wf(),
            compressed.wf(),
            img.same_size(compressed),
        ensures
            out.wf(),
            out.same_size(img),
            forall|i: int|
                0 <= i < out.data@.len() ==> out.data@[i] == min(
                    abs_diff(img.data@[i] as int, compressed.data@[i] as int) * ELA_GAIN,
                    255,
                ),
    {
        let diff = self.compute_difference(img, compressed);
        self.amplify_image(&diff, ELA_GAIN)
    }

    /// Re-saves `img` as JPEG at quality 90 and returns the error-level view against the
    /// re-saved copy; `None` where encoding or decoding fails or the decoded size differs.
    pub fn process(&self, img: &RgbImage) -> (r: Option<RgbImage>)
        requires
            img.wf(),
        ensures
            image_jpeg_output(img.data@, img.width, img.height, ELA_QUALITY) is None ==> r is None,
            r matches Some(out) ==> exists|c: RgbImage|
                c.wf() && #[trigger] c.same_size(img) && out.wf() && out.same_size(img) && forall|i: int|
                    0 <= i < out.data@.len() ==> out.data@[i] == min(
                        abs_diff(img.data@[i] as int, c.data@[i] as int) * ELA_GAIN,
                        255,
                    ),
    {
        let compressed = match resave(img, ELA_QUALITY) {
            Some(c) => c,
            None => return None,
        };
        let out = self.process_recompressed(img, &compressed);
        assert(compressed.same_size(img));
        Some(out)
    }
}

/// The constructor that the plugin host calls.
pub fn create_ela_plugin() -> (p: ELAPlugin) {
    ELAPlugin
}

} // verus!
