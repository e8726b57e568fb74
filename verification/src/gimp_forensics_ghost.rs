//! JPEG Ghost after GIMP-Forensics: the squared re-compression error averaged over a window that
//! slides from the top-left to the bottom-right corner as the pixel moves across the image.
use vstd::prelude::*;
use crate::arith::{clamp, max, min};
use crate::errormap::{bounded_errors, rect_sum, squared_error_map, sum_rect};
use crate::codec::jpeg_encoder_rgb_output;
use crate::raster::RgbImage;
use crate::recompress::recompress;

verus! {

/// `a / b` rounded to the nearest integer, halves upwards (for `a >= 0`, `b > 0`).
pub open spec fn round_div(a: int, b: int) -> int {
    (2 * a + b) / (2 * b)
}

/// Where the window starts along an axis of `len` pixels for the pixel at `pos`: at 0 where the
/// window covers the axis, else at `(len - norm) * pos / (len - 1)` rounded to the nearest.
pub open spec fn window_start(len: int, norm: int, pos: int) -> int {
    if norm >= len {
        0
    } else {
        round_div((len - norm) * pos, len - 1)
    }
}

/// How many pixels the window spans along that axis: `norm`, cut at the image border.
pub open spec fn window_len(len: int, norm: int, pos: int) -> int {
    min(norm, len - window_start(len, norm, pos))
}

/// The window sum of `err` for the pixel at `(x, y)` of a `width` by `height` map.
pub open spec fn ghost_window_sum(err: Seq<u32>, width: int, height: int, norm: int, x: int, y: int) -> int {
    rect_sum(
        err,
        width,
        window_start(width, norm, x),
        window_start(height, norm, y),
        window_len(width, norm, x),
        window_len(height, norm, y),
    )
}

/// The window stays inside the axis.
pub proof fn lemma_window_inside(len: int, norm: int, pos: int)
    requires
        len >= 1,
        norm >= 1,
        0 <= pos < len,
    ensures
        0 <= window_start(len, norm, pos),
        0 <= window_len(len, norm, pos),
        window_start(len, norm, pos) + window_len(len, norm, pos) <= len,
{
    if norm < len {
        let a = (len - norm) * pos;
        let b = len - 1;
        assert(0 <= a <= (len - norm) * b) by (nonlinear_arith)
            requires 0 <= pos <= len - 1, norm < len, b == len - 1, a == (len - norm) * pos;
        assert(round_div(a, b) <= len - norm) by (nonlinear_arith)
            requires 0 <= a <= (len - norm) * b, b >= 1, norm < len;
        assert(round_div(a, b) >= 0) by (nonlinear_arith)
            requires 0 <= a, b >= 1;
    }
}

/// `window_start` computed on machine integers.
fn window_start_exec(len: u32, norm: u32, pos: u32) -> (s: u32)
    requires
        len >= 1,
        norm >= 1,
        pos < len,
    ensures
        s == window_start(len as int, norm as int, pos as int),
{
    proof {
        lemma_window_inside(len as int, norm as int, pos as int);
    }
    if norm >= len {
        0
    } else {
        proof {
            crate::arith::lemma_mul_le((len - norm) as int, pos as int, u32::MAX as int, u32::MAX as int);
        }
        let a: u128 = ((len - norm) as u128) * (pos as u128);
        let b: u128 = (len - 1) as u128;
        ((2 * a + b) / (2 * b)) as u32
    }
}

/// JPEG Ghost after GIMP-Forensics.
pub struct GimpForensicsGhostPlugin {
    quality: i32,
    block: u32,
}

impl GimpForensicsGhostPlugin {
    /// The stored JPEG quality (clamped to `1..=99` when used).
    pub closed spec fn quality_spec(&self) -> i32 {
        self.quality
    }

    /// The stored window size (at least 2 when used).
    pub closed spec fn block_spec(&self) -> u32 {
        self.block
    }

    /// Quality 90, window 16.
    pub fn new() -> (p: Self)
        ensures
            p.quality_spec() == 90,
            p.block_spec() == 16,
    {
        GimpForensicsGhostPlugin { quality: 90, block: 16 }
    }

    /// The stored JPEG quality.
    pub fn quality(&self) -> (q: i32)
        ensures
            q == self.quality_spec(),
    {
        self.quality
    }

    /// The stored window size.
    pub fn block(&self) -> (b: u32)
        ensures
            b == self.block_spec(),
    {
        self.block
    }

    /// Stores the JPEG quality; the window size stays.
    pub fn set_quality(&mut self, q: i32)
        ensures
            final(self).quality_spec() == q,
            final(self).block_spec() == old(self).block_spec(),
    {
        self.quality = q;
    }

    /// Stores the window size, raised to 2 where smaller; the quality stays.
    pub fn set_block(&mut self, b: u32)
        ensures
            final(self).block_spec() == max(b as int, 2),
            final(self).quality_spec() == old(self).quality_spec(),
    {
        self.block = if b < 2 { 2 } else { b };
    }

    /// The JPEG quality used: the stored one clamped to `1..=99`.
    pub fn effective_quality(&self) -> (q: u8)
        ensures
            q == clamp(self.quality_spec() as int, 1, 99),
    {
        if self.quality < 1 { 1 } else if self.quality > 99 { 99 } else { self.quality as u8 }
    }

    /// The window size used: the stored one, at least 2.
    pub fn effective_block(&self) -> (b: u32)
        ensures
            b == max(self.block_spec() as int, 2),
    {
        if self.block < 2 { 2 } else { self.block }
    }

    /// The image re-compressed at the quality used, or `None` where that fails.
    pub fn recompressed(&self, img: &RgbImage) -> (r: Option<RgbImage>)
        requires
            img.wf(),
        ensures
            jpeg_encoder_rgb_output(
                img.data@,
                img.width as u16,
                img.height as u16,
                clamp(self.quality_spec() as int, 1, 99) as u8,
            ) is None ==> r is None,
            r matches Some(c) ==> c.wf() && c.same_size(img),
    {
        recompress(img, self.effective_quality())
    }

    /// For every pixel, in row-major order, the sum of the squared-error map `err` over the
    /// pixel's sliding window of side `norm`.
    pub fn window_sums(err: &Vec<u32>, width: u32, height: u32, norm: u32) -> (sums: Vec<u128>)
        requires
            err@.len() == width * height,
            bounded_errors(err@),
            norm >= 1,
        ensures
            sums@.len() == width * height,
            forall|p: int|
                0 <= p < sums@.len() ==> sums@[p] == ghost_window_sum(
                    err@,
                    width as int,
                    height as int,
                    norm as int,
                    p % (width as int),
                    p / (width as int),
                ),
    {
        let n: usize = err.len();
        let mut sums: Vec<u128> = Vec::with_capacity(n);
        let mut y: u32 = 0;
        while y < height
            invariant
                n == err@.len(),
                n == width * height,
                bounded_errors(err@),
                norm >= 1,
                y <= height,
                sums@.len() == y * width,
                forall|p: int|
                    0 <= p < sums@.len() ==> sums@[p] == ghost_window_sum(
                        err@,
                        width as int,
                        height as int,
                        norm as int,
                        p % (width as int),
                        p / (width as int),
                    ),
            decreases height - y,
        {
            proof {
                lemma_window_inside(height as int, norm as int, y as int);
            }
            let ys: u32 = window_start_exec(height, norm, y);
            let ly: u32 = if norm < height - ys { norm } else { height - ys };
            let mut x: u32 = 0;
            while x < width
                invariant
                    n == err@.len(),
                    n == width * height,
                    bounded_errors(err@),
                    norm >= 1,
                    y < height,
                    x <= width,
                    ys == window_start(height as int, norm as int, y as int),
                    ly == window_len(height as int, norm as int, y as int),
                    ys + ly <= height,
                    sums@.len() == y * width + x,
                    forall|p: int|
                        0 <= p < sums@.len() ==> sums@[p] == ghost_window_sum(
                            err@,
                            width as int,
                            height as int,
                            norm as int,
                            p % (width as int),
                            p / (width as int),
                        ),
                decreases width - x,
            {
                proof {
                    lemma_window_inside(width as int, norm as int, x as int);
                }
                let xs: u32 = window_start_exec(width, norm, x);
                let lx: u32 = if norm < width - xs { norm } else { width - xs };
                let s: u128 = sum_rect(
                    err,
                    width as usize,
                    height as usize,
                    xs as usize,
                    ys as usize,
                    lx as usize,
                    ly as usize,
                );
                proof {
                    let q = (y * width + x) as int;
                    vstd::arithmetic::div_mod::lemma_fundamental_div_mod_converse(
                        q,
                        width as int,
                        y as int,
                        x as int,
                    );
                }
                sums.push(s);
                x += 1;
            }
            proof {
                assert((y + 1) * width == y * width + width) by (nonlinear_arith);
            }
            y += 1;
        }
        proof {
            assert(height * width == width * height) by (nonlinear_arith);
        }
        sums
    }

    /// The analysis name shown to users.
    pub fn name(&self) -> (s: &'static str)
        ensures
            s@ == "GIMP Forensics JPEG Ghost"@,
    {
        "GIMP Forensics JPEG Ghost"
    }

    /// What the analysis shows.
    pub fn description(&self) -> (s: &'static str)
        ensures
            s@ == "JPEG Ghost analysis implementation based on GIMP-Forensics (sourceforge.net/projects/gimp-forensics/) by Bernardo Bulgarelli Labronici. The algorithm re-saves the image at a lower JPEG quality and computes per-pixel squared error summed across RGB channels. A sliding normalization window (size controlled by the Block parameter) averages the squared error over a local neighborhood whose position smoothly varies across the image — pixels at top-left use windows anchored at the top-left corner, while pixels at bottom-right use windows anchored at the bottom-right corner. The result is globally normalized to [0,1] and rendered as an RGB color gradient: high error (1.0–0.5) maps from red to green, low error (0.5–0.0) maps from green to blue. Uniformly colored regions indicate consistent compression, while color transitions reveal areas with a different JPEG compression history."@,
    {
        "JPEG Ghost analysis implementation based on GIMP-Forensics (sourceforge.net/projects/gimp-forensics/) by Bernardo Bulgarelli Labronici. The algorithm re-saves the image at a lower JPEG quality and computes per-pixel squared error summed across RGB channels. A sliding normalization window (size controlled by the Block parameter) averages the squared error over a local neighborhood whose position smoothly varies across the image — pixels at top-left use windows anchored at the top-left corner, while pixels at bottom-right use windows anchored at the bottom-right corner. The result is globally normalized to [0,1] and rendered as an RGB color gradient: high error (1.0–0.5) maps from red to green, low error (0.5–0.0) maps from green to blue. Uniformly colored regions indicate consistent compression, while color transitions reveal areas with a different JPEG compression history."
    }

    /// Where the method comes from.
    pub fn reference(&self) -> (s: &'static str)
        ensures
            s@ == "https://sourceforge.net/projects/gimp-forensics/"@,
    {
        "https://sourceforge.net/projects/gimp-forensics/"
    }
}

/// The constructor that the plugin host calls.
pub fn create_gimp_forensics_ghost_plugin() -> (p: GimpForensicsGhostPlugin)
    ensures
        p.quality_spec() == 90,
        p.block_spec() == 16,
{
    GimpForensicsGhostPlugin::new()
}

} // verus!
