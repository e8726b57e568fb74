//! NAND-JPEG: the red-channel re-compression error averaged over each 8 by 8 JPEG block.
use vstd::prelude::*;
use crate::arith::{abs_diff, abs_diff_u8, max, min};
use crate::codec::image_jpeg_output;
use crate::errormap::{bounded_errors, rect_sum, sum_rect};
use crate::raster::RgbImage;
use crate::recompress::resave;

verus! {

/// The side of a JPEG block.
pub const JPEG_BLOCK: u32 = 8;

/// The number of blocks of side 8 that cover `len` pixels.
pub open spec fn block_count(len: int) -> int {
    (len + 7) / 8
}

/// The pixels that block `b` spans along an axis of `len` pixels: 8, cut at the border.
pub open spec fn block_span(len: int, b: int) -> int {
    min(8, len - 8 * b)
}

/// Entry `b` of the block sums and counts covers the `b`-th 8 by 8 block, row by row.
pub open spec fn block_entry_ok(err: Seq<u32>, width: int, height: int, sums: Seq<u32>, counts: Seq<u32>, b: int) -> bool {
    let bx = b % block_count(width);
    let by = b / block_count(width);
    &&& sums[b] == rect_sum(err, width, 8 * bx, 8 * by, block_span(width, bx), block_span(height, by))
    &&& counts[b] == block_span(width, bx) * block_span(height, by)
}

/// Pixel `q` of a row-major RGB buffer is `[0, v, v]` with `v` the value of its 8 by 8 block.
pub open spec fn cyan_block_pixel(data: Seq<u8>, width: int, vals: Seq<u8>, q: int) -> bool {
    let v = vals[(q / width / 8) * block_count(width) + (q % width) / 8];
    &&& data[3 * q] == 0
    &&& data[3 * q + 1] == v
    &&& data[3 * q + 2] == v
}

/// Every pixel `(x, y)` of `out` is `[0, v, v]` with `v` the value of its 8 by 8 block:
/// `vals[(y / 8) * block_count(width) + x / 8]`.
pub open spec fn cyan_block_view(out: RgbImage, vals: Seq<u8>) -> bool {
    forall|x: int, y: int|
        0 <= x < out.width && 0 <= y < out.height ==> {
            &&& #[trigger] out.at(x, y, 0) == 0
            &&& out.at(x, y, 1) == vals[(y / 8) * block_count(out.width as int) + x / 8]
            &&& out.at(x, y, 2) == vals[(y / 8) * block_count(out.width as int) + x / 8]
        }
}

/// The absolute red-channel difference of every pixel.
pub fn red_error_map(img: &RgbImage, other: &RgbImage) -> (err: Vec<u32>)
    requires
        img.wf(),
        other.wf(),
        img.same_size(other),
    ensures
        err@.len() == img.width * img.height,
        bounded_errors(err@),
        forall|p: int|
            0 <= p < err@.len() ==> err@[p] == abs_diff(img.data@[3 * p] as int, other.data@[3 * p] as int),
{
    let len: usize = img.data.len();
    let n: usize = len / 3;
    let mut err: Vec<u32> = Vec::with_capacity(n);
    let mut p: usize = 0;
    while p < n
        invariant
            len == img.data@.len(),
            n == img.width * img.height,
            img.data@.len() == 3 * n,
            other.data@.len() == 3 * n,
            p <= n,
            err@.len() == p,
            bounded_errors(err@),
            forall|q: int|
                0 <= q < p ==> err@[q] == abs_diff(img.data@[3 * q] as int, other.data@[3 * q] as int),
        decreases n - p,
    {
        err.push(abs_diff_u8(img.data[3 * p], other.data[3 * p]) as u32);
        p += 1;
    }
    err
}

/// NAND-JPEG block analysis.
pub struct MiniNandJpegPlugin {
    quality: u8,
}

impl MiniNandJpegPlugin {
    /// The stored JPEG quality.
    pub closed spec fn quality_spec(&self) -> u8 {
        self.quality
    }

    /// Quality 90.
    pub fn new() -> (p: Self)
        ensures
            p.quality_spec() == 90,
    {
        MiniNandJpegPlugin { quality: 90 }
    }

    /// The stored JPEG quality.
    pub fn quality(&self) -> (q: u8)
        ensures
            q == self.quality_spec(),
    {
        self.quality
    }

    /// Stores the JPEG quality.
    pub fn set_quality(&mut self, q: u8)
        ensures
            final(self).quality_spec() == q,
    {
        self.quality = q;
    }

    /// The quality used: the stored one, at least 1.
    pub fn effective_quality(&self) -> (q: u8)
        ensures
            q == max(self.quality_spec() as int, 1),
    {
        if self.quality < 1 { 1 } else { self.quality }
    }

    /// The image re-encoded with the `image` crate's JPEG encoder at the quality used and
    /// decoded; `None` where encoding or decoding fails or the size changes.
    pub fn resaved(&self, img: &RgbImage) -> (r: Option<RgbImage>)
        requires
            img.wf(),
        ensures
            image_jpeg_output(img.data@, img.width, img.height, max(self.quality_spec() as int, 1) as u8)
                is None ==> r is None,
            r matches Some(c) ==> c.wf() && c.same_size(img),
    {
        resave(img, self.effective_quality())
    }

    /// For each 8 by 8 block, row by row, the sum of the red-channel error `err` over the block
    /// and the number of pixels in it (blocks at the right and bottom edges may be smaller).
    #[verifier::spinoff_prover]
    #[verifier::rlimit(40)]
    pub fn block_errors(err: &Vec<u32>, width: u32, height: u32) -> (r: (Vec<u32>, Vec<u32>))
        requires
            err@.len() == width * height,
            forall|p: int| 0 <= p < err@.len() ==> err@[p] <= 255,
        ensures
            r.0@.len() == block_count(width as int) * block_count(height as int),
            r.1@.len() == r.0@.len(),
            forall|b: int| 0 <= b < r.0@.len() ==> #[trigger] block_entry_ok(err@, width as int, height as int, r.0@, r.1@, b),
    {
        let bw: u32 = width / 8 + if width % 8 == 0 { 0 } else { 1 };
        let bh: u32 = height / 8 + if height % 8 == 0 { 0 } else { 1 };
        proof {
            assert(bw == block_count(width as int));
            assert(bh == block_count(height as int));
            assert(bounded_errors(err@));
        }
        let mut sums: Vec<u32> = Vec::new();
        let mut counts: Vec<u32> = Vec::new();
        let mut by: u32 = 0;
        while by < bh
            invariant
                err@.len() == width * height,
                forall|p: int| 0 <= p < err@.len() ==> err@[p] <= 255,
                bounded_errors(err@),
                bw == block_count(width as int),
                bh == block_count(height as int),
                by <= bh,
                sums@.len() == by * bw,
                counts@.len() == sums@.len(),
                forall|b: int| 0 <= b < sums@.len() ==> #[trigger] block_entry_ok(err@, width as int, height as int, sums@, counts@, b),
            decreases bh - by,
        {
            let y0: u32 = 8 * by;
            let ly: u32 = if height - y0 < 8 { height - y0 } else { 8 };
            let mut bx: u32 = 0;
            while bx < bw
                invariant
                    err@.len() == width * height,
                    forall|p: int| 0 <= p < err@.len() ==> err@[p] <= 255,
                    bounded_errors(err@),
                    bw == block_count(width as int),
                    bh == block_count(height as int),
                    by < bh,
                    y0 == 8 * by,
                    y0 < height,
                    ly == block_span(height as int, by as int),
                    bx <= bw,
                    sums@.len() == by * bw + bx,
                    counts@.len() == sums@.len(),
                    forall|b: int| 0 <= b < sums@.len() ==> #[trigger] block_entry_ok(err@, width as int, height as int, sums@, counts@, b),
                decreases bw - bx,
            {
                let x0: u32 = 8 * bx;
                let lx: u32 = if width - x0 < 8 { width - x0 } else { 8 };
                let s: u128 = sum_rect(
                    err,
                    width as usize,
                    height as usize,
                    x0 as usize,
                    y0 as usize,
                    lx as usize,
                    ly as usize,
                );
                proof {
                    assert((y0 + ly) * width <= width * height) by (nonlinear_arith)
                        requires y0 + ly <= height;
                    assert(lx * ly <= 64) by (nonlinear_arith)
                        requires lx <= 8, ly <= 8;
                    lemma_block_sum_small(err@, width as int, x0 as int, y0 as int, lx as int, ly as int);
                    let b = (by * bw + bx) as int;
                    vstd::arithmetic::div_mod::lemma_fundamental_div_mod_converse(
                        b,
                        bw as int,
                        by as int,
                        bx as int,
                    );
                }
                assert(s <= 16320) by {
                    assert(2040 * (ly as int) <= 16320);
                }
                let ghost old_sums = sums@;
                let ghost old_counts = counts@;
                sums.push(s as u32);
                counts.push(lx * ly);
                proof {
                    let b = (by * bw + bx) as int;
                    assert(b % (bw as int) == bx as int);
                    assert(b / (bw as int) == by as int);
                    assert(lx == block_span(width as int, bx as int));
                    assert(block_entry_ok(err@, width as int, height as int, sums@, counts@, b));
                    assert forall|b2: int| 0 <= b2 < sums@.len() implies #[trigger] block_entry_ok(err@, width as int, height as int, sums@, counts@, b2) by {
                        if b2 < b {
                            assert(block_entry_ok(err@, width as int, height as int, old_sums, old_counts, b2));
                        }
                    }
                }
                bx += 1;
            }
            proof {
                assert((by + 1) * bw == by * bw + bw) by (nonlinear_arith);
            }
            by += 1;
        }
        proof {
            assert(bh * bw == bw * bh) by (nonlinear_arith);
        }
        (sums, counts)
    }

    /// The block view: every pixel of block `b` is `[0, vals[b], vals[b]]`.
    #[verifier::spinoff_prover]
    pub fn fill_blocks(width: u32, height: u32, vals: &Vec<u8>) -> (out: RgbImage)
        requires
            vals@.len() == block_count(width as int) * block_count(height as int),
            width * height * 3 <= usize::MAX,
        ensures
            out.wf(),
            out.width == width,
            out.height == height,
            cyan_block_view(out, vals@),
    {
        let bw: u32 = width / 8 + if width % 8 == 0 { 0 } else { 1 };
        let vlen: usize = vals.len();
        let n: usize = (width as usize) * (height as usize);
        let mut data: Vec<u8> = Vec::new();
        let mut p: usize = 0;
        while p < n
            invariant
                vals@.len() == block_count(width as int) * block_count(height as int),
                vlen == vals@.len(),
                width * height * 3 <= usize::MAX,
                n == width * height,
                bw == block_count(width as int),
                p <= n,
                data@.len() == 3 * p,
                forall|q: int| 0 <= q < p ==> #[trigger] cyan_block_pixel(data@, width as int, vals@, q),
            decreases n - p,
        {
            proof {
                assert(width > 0) by (nonlinear_arith)
                    requires p < n, n == width * height;
                vstd::arithmetic::div_mod::lemma_fundamental_div_mod(p as int, width as int);
            }
            let xs: usize = p % (width as usize);
            let ys: usize = p / (width as usize);
            proof {
                assert(ys < height) by (nonlinear_arith)
                    requires p == width * ys + xs, 0 <= xs, p < width * height, width >= 1;
            }
            let x: u32 = xs as u32;
            let y: u32 = ys as u32;
            proof {
                assert((y / 8) * bw + x / 8 < block_count(width as int) * block_count(height as int)) by (nonlinear_arith)
                    requires y < height, x < width, bw == block_count(width as int);
            }
            let v: u8 = vals[((y / 8) as usize) * (bw as usize) + (x / 8) as usize];
            let ghost before = data@;
            data.push(0);
            data.push(v);
            data.push(v);
            proof {
                assert(p as int / (width as int) == y as int);
                assert(p as int % (width as int) == x as int);
                assert(cyan_block_pixel(data@, width as int, vals@, p as int));
                assert forall|q: int| 0 <= q < p + 1 implies #[trigger] cyan_block_pixel(data@, width as int, vals@, q) by {
                    if q < p {
                        assert(cyan_block_pixel(before, width as int, vals@, q));
                    }
                }
            }
            p += 1;
        }
        let out = RgbImage { width, height, data };
        proof {
            assert forall|x: int, y: int|
                0 <= x < width && 0 <= y < height implies {
                    &&& #[trigger] out.at(x, y, 0) == 0
                    &&& out.at(x, y, 1) == vals@[(y / 8) * block_count(width as int) + x / 8]
                    &&& out.at(x, y, 2) == vals@[(y / 8) * block_count(width as int) + x / 8]
                } by {
                let q = y * width + x;
                vstd::arithmetic::div_mod::lemma_fundamental_div_mod_converse(q, width as int, y, x);
                assert(q < width * height) by (nonlinear_arith)
                    requires y < height, x < width, q == y * width + x, 0 <= x, 0 <= y;
                assert((y * width + x) * 3 == 3 * q);
                assert(cyan_block_pixel(out.data@, width as int, vals@, q));
            }
            assert(cyan_block_view(out, vals@));
        }
        out
    }

    /// The analysis name shown to users.
    pub fn name(&self) -> (s: &'static str)
        ensures
            s@ == "miniNand-JPEG"@,
    {
        "miniNand-JPEG"
    }

    /// What the analysis shows.
    pub fn description(&self) -> (s: &'static str)
        ensures
            s@ == "NAND-JPEG analysis that detects re-compression inconsistencies at the 8x8 block level. The algorithm analyzes the quantized DCT coefficient patterns within each JPEG 8x8 block to identify blocks that deviate from a single compression model. Double-compressed blocks exhibit characteristic artifacts in their coefficient distributions that differ from singly-compressed blocks. This technique is particularly effective at revealing regions that have been re-saved, spliced from another JPEG, or locally edited. Brighter blocks in the output indicate a higher likelihood of double or multiple JPEG compression, pointing to potential manipulation."@,
    {
        "NAND-JPEG analysis that detects re-compression inconsistencies at the 8x8 block level. The algorithm analyzes the quantized DCT coefficient patterns within each JPEG 8x8 block to identify blocks that deviate from a single compression model. Double-compressed blocks exhibit characteristic artifacts in their coefficient distributions that differ from singly-compressed blocks. This technique is particularly effective at revealing regions that have been re-saved, spliced from another JPEG, or locally edited. Brighter blocks in the output indicate a higher likelihood of double or multiple JPEG compression, pointing to potential manipulation."
    }

    /// No bibliographic reference.
    pub fn reference(&self) -> (s: &'static str)
        ensures
            s@ == ""@,
    {
        ""
    }
}

/// A block of at most 64 red errors of at most 255 sums to at most 16320.
proof fn lemma_block_sum_small(err: Seq<u32>, width: int, x0: int, y0: int, lx: int, ly: int)
    requires
        0 <= lx <= 8,
        0 <= ly <= 8,
        0 <= x0,
        0 <= y0,
        x0 + lx <= width,
        (y0 + ly) * width <= err.len(),
        forall|p: int| 0 <= p < err.len() ==> err[p] <= 255,
    ensures
        0 <= rect_sum(err, width, x0, y0, lx, ly) <= 2040 * ly,
    decreases ly,
{
    if ly > 0 {
        assert((y0 + ly - 1) * width <= (y0 + ly) * width) by (nonlinear_arith)
            requires width >= 0, y0 + ly >= 1;
        assert((y0 + ly - 1) * width + width == (y0 + ly) * width) by (nonlinear_arith);
        lemma_block_sum_small(err, width, x0, y0, lx, ly - 1);
        lemma_run_small(err, (y0 + ly - 1) * width + x0, lx);
        assert(rect_sum(err, width, x0, y0, lx, ly) == rect_sum(err, width, x0, y0, lx, ly - 1)
            + crate::errormap::run_sum(err, (y0 + ly - 1) * width + x0, lx));
        assert(255 * lx <= 2040);
    }
}

/// A run of at most 8 red errors of at most 255 sums to at most 2040.
proof fn lemma_run_small(err: Seq<u32>, start: int, len: int)
    requires
        0 <= len <= 8,
        0 <= start,
        start + len <= err.len(),
        forall|p: int| 0 <= p < err.len() ==> err[p] <= 255,
    ensures
        0 <= crate::errormap::run_sum(err, start, len) <= 255 * len,
    decreases len,
{
    if len > 0 {
        lemma_run_small(err, start, len - 1);
    }
}

/// The constructor that the plugin host calls.
pub fn create_mini_nand_jpeg_plugin() -> (p: MiniNandJpegPlugin)
    ensures
        p.quality_spec() == 90,
{
    MiniNandJpegPlugin::new()
}

} // verus!
