//! Conversions shared by several analyses: luminance and gray-to-RGB rendering.
use vstd::prelude::*;
use crate::codec::{luma8_output, to_luma8};
use crate::raster::{GrayImage, RgbImage};

verus! {

/// The luminance of an RGB image, as the `image` crate computes it.
pub fn luminance(img: &RgbImage) -> (g: GrayImage)
    requires
        img.wf(),
    ensures
        g.wf(),
        g.width == img.width,
        g.height == img.height,
        g.data@ == luma8_output(img.data@, img.width, img.height),
{
    to_luma8(img)
}

/// Pixel `p` of the RGB buffer `rgb` is gray at pixel `p` of `gray`.
pub open spec fn gray_pixel(rgb: Seq<u8>, gray: Seq<u8>, p: int) -> bool {
    &&& rgb[3 * p] == gray[p]
    &&& rgb[3 * p + 1] == gray[p]
    &&& rgb[3 * p + 2] == gray[p]
}

/// A gray image as an RGB image: every pixel `[v, v, v]`.
pub fn gray_to_rgb(g: &GrayImage) -> (out: RgbImage)
    requires
        g.wf(),
        g.width * g.height * 3 <= usize::MAX,
    ensures
        out.wf(),
        out.width == g.width,
        out.height == g.height,
        forall|p: int| 0 <= p < g.width * g.height ==> #[trigger] gray_pixel(out.data@, g.data@, p),
{
    let n: usize = g.data.len();
    let mut data: Vec<u8> = Vec::new();
    let mut p: usize = 0;
    while p < n
        invariant
            n == g.data@.len(),
            n == g.width * g.height,
            3 * n <= usize::MAX,
            p <= n,
            data@.len() == 3 * p,
            forall|q: int| 0 <= q < p ==> #[trigger] gray_pixel(data@, g.data@, q),
        decreases n - p,
    {
        let v: u8 = g.data[p];
        let ghost before = data@;
        data.push(v);
        data.push(v);
        data.push(v);
        proof {
            assert(gray_pixel(data@, g.data@, p as int));
            assert forall|q: int| 0 <= q < p + 1 implies #[trigger] gray_pixel(data@, g.data@, q) by {
                if q < p {
                    assert(gray_pixel(before, g.data@, q));
                }
            }
        }
        p += 1;
    }
    RgbImage { width: g.width, height: g.height, data }
}

} // verus!
