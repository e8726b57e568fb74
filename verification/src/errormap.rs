//! Per-pixel error maps between an image and its re-compressed version, and sums over
//! rectangles of such maps.
use vstd::prelude::*;
use crate::arith::{abs_diff, abs_diff_u8, max};
use crate::raster::{GrayImage, RgbImage};

verus! {

/// The largest value a per-pixel squared error can take: three channels of 255 squared.
pub const MAX_SQUARED_ERROR: u32 = 195075;

/// The squared difference of channel values `a` and `b`.
pub open spec fn sq_diff(a: int, b: int) -> int {
    (a - b) * (a - b)
}

/// The squared error of pixel `p`, summed over its three channels.
pub open spec fn pixel_sq_error(a: Seq<u8>, b: Seq<u8>, p: int) -> int {
    sq_diff(a[3 * p] as int, b[3 * p] as int) + sq_diff(a[3 * p + 1] as int, b[3 * p + 1] as int)
        + sq_diff(a[3 * p + 2] as int, b[3 * p + 2] as int)
}

/// The largest absolute channel difference of pixel `p`.
pub open spec fn pixel_max_error(a: Seq<u8>, b: Seq<u8>, p: int) -> int {
    max(
        max(abs_diff(a[3 * p] as int, b[3 * p] as int), abs_diff(a[3 * p + 1] as int, b[3 * p + 1] as int)),
        abs_diff(a[3 * p + 2] as int, b[3 * p + 2] as int),
    )
}

/// The sum of `len` consecutive entries of `s` from `start`.
pub open spec fn run_sum(s: Seq<u32>, start: int, len: int) -> int
    decreases len,
{
    if len <= 0 {
        0
    } else {
        run_sum(s, start, len - 1) + s[start + len - 1]
    }
}

/// The sum of the `lx` by `ly` rectangle of the row-major map `s` (rows of `width` entries)
/// whose top-left entry is `(x0, y0)`.
pub open spec fn rect_sum(s: Seq<u32>, width: int, x0: int, y0: int, lx: int, ly: int) -> int
    decreases ly,
{
    if ly <= 0 {
        0
    } else {
        rect_sum(s, width, x0, y0, lx, ly - 1) + run_sum(s, (y0 + ly - 1) * width + x0, lx)
    }
}

/// Every entry of `s` is at most `MAX_SQUARED_ERROR`.
pub open spec fn bounded_errors(s: Seq<u32>) -> bool {
    forall|i: int| 0 <= i < s.len() ==> s[i] <= MAX_SQUARED_ERROR
}

/// The squared channel difference of two bytes.
fn sq_diff_u32(a: u8, b: u8) -> (r: u32)
    ensures
        r == sq_diff(a as int, b as int),
        r <= 65025,
{
    let d: u32 = abs_diff_u8(a, b) as u32;
    proof {
        assert(d * d == sq_diff(a as int, b as int)) by (nonlinear_arith)
            requires d == abs_diff(a as int, b as int);
        assert(d * d <= 65025) by (nonlinear_arith)
            requires d <= 255;
    }
    d * d
}

/// The per-pixel squared error between two images of one size, summed over the channels.
pub fn squared_error_map(img: &RgbImage, other: &RgbImage) -> (err: Vec<u32>)
    requires
        img.wf(),
        other.wf(),
        img.same_size(other),
    ensures
        err@.len() == img.width * img.height,
        bounded_errors(err@),
        forall|p: int| 0 <= p < err@.len() ==> err@[p] == pixel_sq_error(img.data@, other.data@, p),
{
    let len: usize = img.data.len();
    let n: usize = len / 3;
    let mut err: Vec<u32> = Vec::with_capacity(n);
    let mut p: usize = 0;
    while p < n
        invariant
            len == img.data@.len(),
            n == img.width * img.height,
            img.data@.len() == 3 * n,
            other.data@.len() == 3 * n,
            p <= n,
            err@.len() == p,
            bounded_errors(err@),
            forall|q: int| 0 <= q < p ==> err@[q] == pixel_sq_error(img.data@, other.data@, q),
        decreases n - p,
    {
        let r: u32 = sq_diff_u32(img.data[3 * p], other.data[3 * p]);
        let g: u32 = sq_diff_u32(img.data[3 * p + 1], other.data[3 * p + 1]);
        let b: u32 = sq_diff_u32(img.data[3 * p + 2], other.data[3 * p + 2]);
        err.push(r + g + b);
        p += 1;
    }
    err
}

/// The per-pixel largest absolute channel difference between two images of one size.
pub fn max_error_map(img: &RgbImage, other: &RgbImage) -> (err: GrayImage)
    requires
        img.wf(),
        other.wf(),
        img.same_size(other),
    ensures
        err.wf(),
        err.width == img.width,
        err.height == img.height,
        forall|p: int|
            0 <= p < err.data@.len() ==> err.data@[p] == pixel_max_error(img.data@, other.data@, p),
{
    let len: usize = img.data.len();
    let n: usize = len / 3;
    let mut data: Vec<u8> = Vec::with_capacity(n);
    let mut p: usize = 0;
    while p < n
        invariant
            len == img.data@.len(),
            n == img.width * img.height,
            img.data@.len() == 3 * n,
            other.data@.len() == 3 * n,
            p <= n,
            data@.len() == p,
            forall|q: int| 0 <= q < p ==> data@[q] == pixel_max_error(img.data@, other.data@, q),
        decreases n - p,
    {
        let r: u8 = abs_diff_u8(img.data[3 * p], other.data[3 * p]);
        let g: u8 = abs_diff_u8(img.data[3 * p + 1], other.data[3 * p + 1]);
        let b: u8 = abs_diff_u8(img.data[3 * p + 2], other.data[3 * p + 2]);
        let m1: u8 = if r >= g { r } else { g };
        let m: u8 = if m1 >= b { m1 } else { b };
        data.push(m);
        p += 1;
    }
    GrayImage { width: img.width, height: img.height, data }
}

/// The smallest and the largest pixel of a non-empty gray image.
pub fn min_max(img: &GrayImage) -> (r: (u8, u8))
    requires
        img.data@.len() > 0,
    ensures
        exists|i: int| 0 <= i < img.data@.len() && img.data@[i] == r.0,
        exists|i: int| 0 <= i < img.data@.len() && img.data@[i] == r.1,
        forall|i: int| 0 <= i < img.data@.len() ==> r.0 <= #[trigger] img.data@[i] <= r.1,
{
    let n: usize = img.data.len();
    let mut lo: u8 = img.data[0];
    let mut hi: u8 = img.data[0];
    let mut i: usize = 1;
    while i < n
        invariant
            n == img.data@.len(),
            1 <= i <= n,
            exists|k: int| 0 <= k < i && img.data@[k] == lo,
            exists|k: int| 0 <= k < i && img.data@[k] == hi,
            forall|k: int| 0 <= k < i ==> lo <= #[trigger] img.data@[k] <= hi,
        decreases n - i,
    {
        let v: u8 = img.data[i];
        if v < lo {
            lo = v;
        }
        if v > hi {
            hi = v;
        }
        i += 1;
    }
    (lo, hi)
}

/// A run of bounded errors sums to at most `MAX_SQUARED_ERROR` per entry.
pub proof fn lemma_run_sum_bound(s: Seq<u32>, start: int, len: int)
    requires
        bounded_errors(s),
        0 <= start,
        0 <= len,
        start + len <= s.len(),
    ensures
        0 <= run_sum(s, start, len) <= MAX_SQUARED_ERROR * len,
    decreases len,
{
    if len > 0 {
        lemma_run_sum_bound(s, start, len - 1);
    }
}

/// The sum of the run of `len` entries of `s` from `start`.
pub fn sum_run(s: &Vec<u32>, start: usize, len: usize) -> (total: u128)
    requires
        bounded_errors(s@),
        start + len <= s@.len(),
    ensures
        total == run_sum(s@, start as int, len as int),
        total <= MAX_SQUARED_ERROR * len,
{
    let n: usize = s.len();
    let mut total: u128 = 0;
    let mut k: usize = 0;
    while k < len
        invariant
            n == s@.len(),
            bounded_errors(s@),
            start + len <= s@.len(),
            k <= len,
            total == run_sum(s@, start as int, k as int),
            total <= MAX_SQUARED_ERROR * k,
        decreases len - k,
    {
        total = total + s[start + k] as u128;
        k += 1;
    }
    total
}

/// The sum of the `lx` by `ly` rectangle of the row-major map `s` (rows of `width` entries)
/// whose top-left entry is `(x0, y0)`.
pub fn sum_rect(s: &Vec<u32>, width: usize, height: usize, x0: usize, y0: usize, lx: usize, ly: usize) -> (total: u128)
    requires
        bounded_errors(s@),
        s@.len() == width * height,
        x0 + lx <= width,
        y0 + ly <= height,
    ensures
        total == rect_sum(s@, width as int, x0 as int, y0 as int, lx as int, ly as int),
{
    let n: usize = s.len();
    let mut total: u128 = 0;
    let mut r: usize = 0;
    while r < ly
        invariant
            n == s@.len(),
            bounded_errors(s@),
            s@.len() == width * height,
            x0 + lx <= width,
            y0 + ly <= height,
            r <= ly,
            total == rect_sum(s@, width as int, x0 as int, y0 as int, lx as int, r as int),
            total <= MAX_SQUARED_ERROR * (width as int) * (r as int),
        decreases ly - r,
    {
        proof {
            crate::arith::lemma_mul_le((y0 + r) as int, width as int, (height - 1) as int, width as int);
            assert(((y0 + r) * width + x0 + lx) as int <= width * height) by (nonlinear_arith)
                requires y0 + r + 1 <= height, x0 + lx <= width;
        }
        let start: usize = (y0 + r) * width + x0;
        let row: u128 = sum_run(s, start, lx);
        proof {
            assert(MAX_SQUARED_ERROR * (width as int) * (r as int) + MAX_SQUARED_ERROR * lx
                <= MAX_SQUARED_ERROR * (width as int) * ((r + 1) as int)) by (nonlinear_arith)
                requires lx <= width;
            assert(MAX_SQUARED_ERROR * (width as int) * ((r + 1) as int) <= MAX_SQUARED_ERROR * (width as int) * (height as int)) by (nonlinear_arith)
                requires r + 1 <= height;
            assert((width as int) * (height as int) <= usize::MAX);
            assert(MAX_SQUARED_ERROR * (width as int) * (height as int) <= MAX_SQUARED_ERROR * (usize::MAX as int)) by (nonlinear_arith)
                requires (width as int) * (height as int) <= usize::MAX;
        }
        total = total + row;
        r += 1;
    }
    total
}

} // verus!
