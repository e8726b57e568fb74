//! CFA artifact detection: how far each pixel lies from the bilinear interpolation of its four
//! neighbours, summed over the channels.
use vstd::prelude::*;
use crate::arith::abs_diff;
use crate::raster::RgbImage;

verus! {

/// Four times the interpolation error of channel `c` at `(x, y)`: `|4 p - (left + right + up +
/// down)|`.
pub open spec fn cfa_channel_error(img: RgbImage, x: int, y: int, c: int) -> int {
    abs_diff(
        4 * img.at(x, y, c) as int,
        img.at(x - 1, y, c) as int + img.at(x + 1, y, c) as int + img.at(x, y - 1, c) as int + img.at(
            x,
            y + 1,
            c,
        ) as int,
    )
}

/// Four times the interpolation error at `(x, y)`, summed over the channels, for pixels at least
/// 2 from every border; 0 elsewhere.
pub open spec fn cfa_error(img: RgbImage, x: int, y: int) -> int {
    if 2 <= x < img.width - 2 && 2 <= y < img.height - 2 {
        cfa_channel_error(img, x, y, 0) + cfa_channel_error(img, x, y, 1) + cfa_channel_error(img, x, y, 2)
    } else {
        0
    }
}

/// `cfa_error` at `(x, y)`.
fn cfa_error_at(img: &RgbImage, x: u32, y: u32) -> (e: u32)
    requires
        img.wf(),
        x < img.width,
        y < img.height,
    ensures
        e == cfa_error(*img, x as int, y as int),
{
    if x < 2 || y < 2 || x as u64 + 2 >= img.width as u64 || y as u64 + 2 >= img.height as u64 {
        return 0;
    }
    let mut total: u32 = 0;
    let mut c: usize = 0;
    while c < 3
        invariant
            img.wf(),
            2 <= x < img.width - 2,
            2 <= y < img.height - 2,
            c <= 3,
            total == (if c >= 1 { cfa_channel_error(*img, x as int, y as int, 0) } else { 0 }) + (if c >= 2 {
                cfa_channel_error(*img, x as int, y as int, 1)
            } else {
                0
            }) + (if c >= 3 { cfa_channel_error(*img, x as int, y as int, 2) } else { 0 }),
            total <= 1020 * c,
        decreases 3 - c,
    {
        let p: u32 = 4 * img.get(x, y, c) as u32;
        let s: u32 = img.get(x - 1, y, c) as u32 + img.get(x + 1, y, c) as u32 + img.get(x, y - 1, c) as u32
            + img.get(x, y + 1, c) as u32;
        let d: u32 = if p >= s { p - s } else { s - p };
        total = total + d;
        c += 1;
    }
    total
}

/// CFA (Bayer demosaicing) artifact detection.
pub struct CFADetectorPlugin;

impl CFADetectorPlugin {
    /// `cfa_error` for every pixel, row by row.
    pub fn error_map(img: &RgbImage) -> (err: Vec<u32>)
        requires
            img.wf(),
            img.width >= 1,
            img.height >= 5 ==> img.width >= 2,
        ensures
            err@.len() == img.width * img.height,
            forall|q: int|
                0 <= q < err@.len() ==> #[trigger] err@[q] == cfa_error(
                    *img,
                    q % (img.width as int),
                    q / (img.width as int),
                ),
    {
        let len: usize = img.data.len();
        let n: usize = len / 3;
        let w: usize = img.width as usize;
        let mut err: Vec<u32> = Vec::new();
        let mut p: usize = 0;
        while p < n
            invariant
                img.wf(),
                len == img.data@.len(),
                n == img.width * img.height,
                w == img.width,
                w >= 1,
                p <= n,
                err@.len() == p,
                forall|q: int|
                    0 <= q < p ==> #[trigger] err@[q] == cfa_error(*img, q % (w as int), q / (w as int)),
            decreases n - p,
        {
            proof {
                vstd::arithmetic::div_mod::lemma_fundamental_div_mod(p as int, w as int);
                assert(p / w < img.height) by (nonlinear_arith)
                    requires p < w * img.height, w >= 1, p == w * (p / w) + p % w, p % w >= 0;
            }
            let x: usize = p % w;
            let y: usize = p / w;
            err.push(cfa_error_at(img, x as u32, y as u32));
            p += 1;
        }
        err
    }

    /// The analysis name shown to users.
    pub fn name(&self) -> (s: &'static str)
        ensures
            s@ == "CFA Artifact Detector"@,
    {
        "CFA Artifact Detector"
    }

    /// What the analysis shows.
    pub fn description(&self) -> (s: &'static str)
        ensures
            s@ == "Detects Bayer matrix (demosaicing) interpolation inconsistencies that reveal tampered regions. The algorithm simulates re-demosaicing by bilinear interpolation and compares the result against the original, highlighting areas where the CFA interpolation pattern is disrupted. Most digital cameras use a fixed Bayer pattern for demosaicing, so spliced regions from different sources will exhibit different interpolation artifacts. The output image uses a cross-channel error map where brighter pixels indicate stronger CFA interpolation inconsistencies, suggesting potential image manipulation."@,
    {
        "Detects Bayer matrix (demosaicing) interpolation inconsistencies that reveal tampered regions. The algorithm simulates re-demosaicing by bilinear interpolation and compares the result against the original, highlighting areas where the CFA interpolation pattern is disrupted. Most digital cameras use a fixed Bayer pattern for demosaicing, so spliced regions from different sources will exhibit different interpolation artifacts. The output image uses a cross-channel error map where brighter pixels indicate stronger CFA interpolation inconsistencies, suggesting potential image manipulation."
    }

    /// Where the method is described.
    pub fn reference(&self) -> (s: &'static str)
        ensures
            s@ == "https://doi.org/10.1109/TSP.2005.855393"@,
    {
        "https://doi.org/10.1109/TSP.2005.855393"
    }
}

/// The constructor that the plugin host calls.
pub fn create_cfa_plugin() -> (p: CFADetectorPlugin) {
    CFADetectorPlugin
}

} // verus!
