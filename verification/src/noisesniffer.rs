//! Noisesniffer: the pixel mask and the bookkeeping of the noise-distribution analysis (bins of
//! blocks ordered by mean, the share of blocks kept in each bin, the macro-block grid).
use vstd::prelude::*;
use crate::arith::max;
use crate::raster::RgbImage;

verus! {

/// The side of the square blocks whose DCT is analysed.
pub const BLOCK: usize = 5;

/// The side of the macro-blocks of the heat map.
pub const MACRO: usize = 256;

/// The number of blocks per bin of equal mean.
pub const SAMPLES_PER_BIN: usize = 20000;

/// Channel `c` of pixel `p` of a row-major RGB buffer.
pub open spec fn chan(data: Seq<u8>, p: int, c: int) -> u8 {
    data[3 * p + c]
}

/// `lo` and `hi` are the smallest and largest value of channel `c` over the first `n` pixels.
pub open spec fn channel_extremes_ok(data: Seq<u8>, n: int, c: int, lo: u8, hi: u8) -> bool {
    &&& forall|p: int| 0 <= p < n ==> lo <= #[trigger] chan(data, p, c) <= hi
    &&& exists|p: int| 0 <= p < n && chan(data, p, c) == lo
    &&& exists|p: int| 0 <= p < n && chan(data, p, c) == hi
}

/// The smallest and largest value of channel `c` over the pixels of a non-empty image.
pub fn channel_extremes(img: &RgbImage, c: usize) -> (r: (u8, u8))
    requires
        img.wf(),
        img.width * img.height > 0,
        c < 3,
    ensures
        channel_extremes_ok(img.data@, img.width * img.height, c as int, r.0, r.1),
{
    let len: usize = img.data.len();
    let n: usize = len / 3;
    let mut lo: u8 = img.data[c];
    let mut hi: u8 = img.data[c];
    let mut p: usize = 1;
    proof {
        assert(chan(img.data@, 0, c as int) == lo);
    }
    while p < n
        invariant
            len == img.data@.len(),
            n == img.width * img.height,
            len == 3 * n,
            c < 3,
            1 <= p <= n,
            forall|q: int| 0 <= q < p ==> lo <= #[trigger] chan(img.data@, q, c as int) <= hi,
            exists|q: int| 0 <= q < p && chan(img.data@, q, c as int) == lo,
            exists|q: int| 0 <= q < p && chan(img.data@, q, c as int) == hi,
        decreases n - p,
    {
        let v: u8 = img.data[3 * p + c];
        proof {
            assert(chan(img.data@, p as int, c as int) == v);
        }
        if v < lo {
            lo = v;
        }
        if v > hi {
            hi = v;
        }
        p += 1;
    }
    (lo, hi)
}

/// Pixel `p` takes part in the analysis: none of its channels is at that channel's smallest or
/// largest value over the image.
pub open spec fn pixel_usable(data: Seq<u8>, los: Seq<u8>, his: Seq<u8>, p: int) -> bool {
    forall|c: int| 0 <= c < 3 ==> #[trigger] chan(data, p, c) != los[c] && chan(data, p, c) != his[c]
}

/// For every pixel, whether it takes part in the analysis (see `pixel_usable`), with the
/// per-channel extremes it was judged against.
pub fn usable_mask(img: &RgbImage) -> (r: (Vec<bool>, Vec<u8>, Vec<u8>))
    requires
        img.wf(),
        img.width * img.height > 0,
    ensures
        r.1@.len() == 3,
        r.2@.len() == 3,
        forall|c: int| 0 <= c < 3 ==> channel_extremes_ok(img.data@, img.width * img.height, c, #[trigger] r.1@[c], r.2@[c]),
        r.0@.len() == img.width * img.height,
        forall|p: int| 0 <= p < r.0@.len() ==> #[trigger] r.0@[p] == pixel_usable(img.data@, r.1@, r.2@, p),
{
    let mut los: Vec<u8> = Vec::new();
    let mut his: Vec<u8> = Vec::new();
    let mut c: usize = 0;
    while c < 3
        invariant
            img.wf(),
            img.width * img.height > 0,
            c <= 3,
            los@.len() == c,
            his@.len() == c,
            forall|k: int| 0 <= k < c ==> channel_extremes_ok(img.data@, img.width * img.height, k, #[trigger] los@[k], his@[k]),
        decreases 3 - c,
    {
        let (lo, hi) = channel_extremes(img, c);
        los.push(lo);
        his.push(hi);
        c += 1;
    }
    let len: usize = img.data.len();
    let n: usize = len / 3;
    let mut mask: Vec<bool> = Vec::new();
    let mut p: usize = 0;
    while p < n
        invariant
            len == img.data@.len(),
            n == img.width * img.height,
            len == 3 * n,
            los@.len() == 3,
            his@.len() == 3,
            p <= n,
            mask@.len() == p,
            forall|q: int| 0 <= q < p ==> #[trigger] mask@[q] == pixel_usable(img.data@, los@, his@, q),
        decreases n - p,
    {
        let mut ok: bool = true;
        let mut k: usize = 0;
        while k < 3
            invariant
                len == img.data@.len(),
                len == 3 * n,
                p < n,
                los@.len() == 3,
                his@.len() == 3,
                k <= 3,
                ok == forall|j: int| 0 <= j < k ==> #[trigger] chan(img.data@, p as int, j) != los@[j] && chan(img.data@, p as int, j) != his@[j],
            decreases 3 - k,
        {
            let v: u8 = img.data[3 * p + k];
            proof {
                assert(chan(img.data@, p as int, k as int) == v);
            }
            if v == los[k] || v == his[k] {
                ok = false;
            }
            k += 1;
        }
        mask.push(ok);
        p += 1;
    }
    (mask, los, his)
}

/// The number of bins for `total` blocks: enough for at most 20000 blocks each, at least one.
pub open spec fn bin_count_spec(total: int) -> int {
    max((total + 19999) / 20000, 1)
}

/// The number of bins for `total` blocks (see `bin_count_spec`).
pub fn bin_count(total: usize) -> (n: usize)
    ensures
        n == bin_count_spec(total as int),
{
    let k: usize = total / SAMPLES_PER_BIN + if total % SAMPLES_PER_BIN == 0 { 0 } else { 1 };
    if k < 1 { 1 } else { k }
}

/// Where bin `bin` of `bins` starts among `total` blocks ordered by mean: at
/// `bin * total / bins`.
pub open spec fn bin_start(bin: int, bins: int, total: int) -> int {
    (bin * total) / bins
}

/// Where bin `bin` of `bins` ends: where the next one starts, or at `total` for the last bin.
pub open spec fn bin_end(bin: int, bins: int, total: int) -> int {
    if bin == bins - 1 { total } else { ((bin + 1) * total) / bins }
}

/// The range `start..end` of the blocks (in order of mean) that bin `bin` of `bins` holds
/// (see `bin_start` and `bin_end`).
pub fn bin_range(bin: usize, bins: usize, total: usize) -> (r: (usize, usize))
    requires
        bin < bins,
        total * bins <= usize::MAX,
    ensures
        r.0 == bin_start(bin as int, bins as int, total as int),
        r.1 == bin_end(bin as int, bins as int, total as int),
        r.0 <= r.1 <= total,
{
    proof {
        assert(bin * total <= total * bins) by (nonlinear_arith)
            requires bin < bins;
        assert((bin + 1) * total <= total * bins) by (nonlinear_arith)
            requires bin < bins;
        assert((bin * total) / (bins as int) <= ((bin + 1) * total) / (bins as int)) by (nonlinear_arith)
            requires bins > 0;
        assert(((bin + 1) * total) / (bins as int) <= total) by (nonlinear_arith)
            requires (bin + 1) <= bins, bins > 0;
        assert((bin * total) / (bins as int) <= total) by (nonlinear_arith)
            requires bin < bins, bins > 0;
    }
    let start: usize = bin * total / bins;
    let end: usize = if bin == bins - 1 { total } else { (bin + 1) * total / bins };
    (start, end)
}

/// The bins of `bin_range` cut the blocks into consecutive runs: the first starts at 0, each
/// ends where the next starts, none runs backwards, and the last ends at `total`.
pub proof fn lemma_bins_partition(bins: int, total: int, bin: int)
    requires
        bins >= 1,
        total >= 0,
        0 <= bin < bins,
    ensures
        bin_start(0, bins, total) == 0,
        bin_end(bins - 1, bins, total) == total,
        bin < bins - 1 ==> bin_end(bin, bins, total) == bin_start(bin + 1, bins, total),
        bin_start(bin, bins, total) <= bin_end(bin, bins, total) <= total,
{
    assert((0 * total) / bins == 0) by (nonlinear_arith)
        requires bins >= 1;
    assert((bin * total) / bins <= ((bin + 1) * total) / bins) by (nonlinear_arith)
        requires bins >= 1, total >= 0, bin >= 0;
    assert(((bin + 1) * total) / bins <= total) by (nonlinear_arith)
        requires bins >= 1, total >= 0, bin < bins;
    assert((bin * total) / bins <= total) by (nonlinear_arith)
        requires bins >= 1, total >= 0, 0 <= bin < bins;
}

/// How many blocks of a bin of `len` blocks (ordered by DCT variance) are candidates: five
/// per cent of them, rounded down, at least one.
pub fn candidate_count(len: usize) -> (n: usize)
    ensures
        n == max(len as int / 20, 1),
        1 <= n,
        len >= 1 ==> n <= len,
{
    let n: usize = len / 20;
    if n < 1 { 1 } else { n }
}

/// How many candidates (ordered by standard deviation) count as lowest-noise: thirty per cent
/// of `n`, rounded down, at least one.
pub fn selected_count(n: usize) -> (m: usize)
    ensures
        m == max((3 * n as int) / 10, 1),
        1 <= m,
        n >= 1 ==> m <= n,
{
    let m: usize = (n / 10) * 3 + ((n % 10) * 3) / 10;
    proof {
        assert((3 * n as int) / 10 == (n as int / 10) * 3 + ((n as int % 10) * 3) / 10) by (nonlinear_arith)
            requires n >= 0;
    }
    if m < 1 { 1 } else { m }
}

/// The index of the macro-block that holds the block whose top-left pixel is `(x, y)`, in a
/// grid of `width / 256 + 1` macro-blocks per row.
pub fn macro_index(x: usize, y: usize, width: usize) -> (i: usize)
    requires
        (y / 256) * (width / 256 + 1) + x / 256 <= usize::MAX,
    ensures
        i == (y / 256) * (width as int / 256 + 1) + x / 256,
{
    (y / MACRO) * (width / MACRO + 1) + x / MACRO
}

/// Noisesniffer noise-distribution heat map.
pub struct NoisesnifferPlugin;

impl NoisesnifferPlugin {
    /// The analysis name shown to users.
    pub fn name(&self) -> (s: &'static str)
        ensures
            s@ == "Noisesniffer Distribution"@,
    {
        "Noisesniffer Distribution"
    }

    /// What the analysis shows.
    pub fn description(&self) -> (s: &'static str)
        ensures
            s@ == "Noise distribution analysis based on Noisesniffer (github.com/marinagardella/Noisesniffer) by Marina Gardella et al., IWBF 2021. The algorithm computes the DCT-II of overlapping 5x5 blocks independently on each RGB channel, measures the variance of low-to-medium frequency coefficients, and statistically selects the most noise-consistent blocks per luminance bin. The heatmap shows each 256x256 macro-block's deviation from the expected noise distribution: blue regions follow the expected noise model, while red regions deviate and may indicate tampering."@,
    {
        "Noise distribution analysis based on Noisesniffer (github.com/marinagardella/Noisesniffer) by Marina Gardella et al., IWBF 2021. The algorithm computes the DCT-II of overlapping 5x5 blocks independently on each RGB channel, measures the variance of low-to-medium frequency coefficients, and statistically selects the most noise-consistent blocks per luminance bin. The heatmap shows each 256x256 macro-block's deviation from the expected noise distribution: blue regions follow the expected noise model, while red regions deviate and may indicate tampering."
    }

    /// Where the method comes from.
    pub fn reference(&self) -> (s: &'static str)
        ensures
            s@ == "https://github.com/marinagardella/Noisesniffer"@,
    {
        "https://github.com/marinagardella/Noisesniffer"
    }
}

/// The constructor that the plugin host calls.
pub fn create_noisesniffer_plugin() -> (p: NoisesnifferPlugin) {
    NoisesnifferPlugin
}

} // verus!
