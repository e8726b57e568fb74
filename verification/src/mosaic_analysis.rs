//! Mosaic analysis: Bayer colour-filter positions, per-block histograms of the estimated Bayer
//! phase, and the phase that dominates the image.
use vstd::prelude::*;

verus! {

/// The side of the blocks over which phases are counted.
pub const PHASE_SIZE: usize = 64;

/// The colour channel (0 red, 1 green, 2 blue) that a Bayer filter with the given phase places
/// at `(x, y)`: phase 0 is RGGB, 1 is BGGR, 2 is GRBG, any other GBRG.
pub open spec fn bayer_channel(x: int, y: int, phase: int) -> int {
    let bx = x % 2;
    let by = y % 2;
    if phase == 0 {
        if bx == 0 && by == 0 { 0 } else if bx == 1 && by == 1 { 2 } else { 1 }
    } else if phase == 1 {
        if bx == 0 && by == 0 { 2 } else if bx == 1 && by == 1 { 0 } else { 1 }
    } else if phase == 2 {
        if bx == 0 && by == 0 { 1 } else if bx == 1 && by == 0 { 0 } else if bx == 0 && by == 1 { 2 } else { 1 }
    } else {
        if bx == 0 && by == 0 { 1 } else if bx == 1 && by == 0 { 2 } else if bx == 0 && by == 1 { 0 } else { 1 }
    }
}

/// The colour channel that the Bayer filter of the given phase places at `(x, y)`.
pub fn bayer_position(x: usize, y: usize, phase: u8) -> (c: u8)
    ensures
        c == bayer_channel(x as int, y as int, phase as int),
        c < 3,
{
    let bx: usize = x % 2;
    let by: usize = y % 2;
    if phase == 0 {
        if bx == 0 && by == 0 { 0 } else if bx == 1 && by == 1 { 2 } else { 1 }
    } else if phase == 1 {
        if bx == 0 && by == 0 { 2 } else if bx == 1 && by == 1 { 0 } else { 1 }
    } else if phase == 2 {
        if bx == 0 && by == 0 { 1 } else if bx == 1 && by == 0 { 0 } else if bx == 0 && by == 1 { 2 } else { 1 }
    } else {
        if bx == 0 && by == 0 { 1 } else if bx == 1 && by == 0 { 2 } else if bx == 0 && by == 1 { 0 } else { 1 }
    }
}

/// Every Bayer phase puts green at half of the positions of each 2 by 2 cell: exactly two of
/// the four positions of any cell are green.
pub proof fn lemma_bayer_two_greens(x: int, y: int, phase: int)
    requires
        x % 2 == 0,
        y % 2 == 0,
    ensures
        (if bayer_channel(x, y, phase) == 1 { 1int } else { 0int }) + (if bayer_channel(x + 1, y, phase) == 1 {
            1int
        } else {
            0int
        }) + (if bayer_channel(x, y + 1, phase) == 1 { 1int } else { 0int }) + (if bayer_channel(
            x + 1,
            y + 1,
            phase,
        ) == 1 {
            1int
        } else {
            0int
        }) == 2,
{
}

/// The Bayer pattern repeats every two pixels in each direction.
pub proof fn lemma_bayer_periodic(x: int, y: int, phase: int)
    requires
        x >= 0,
        y >= 0,
    ensures
        bayer_channel(x + 2, y, phase) == bayer_channel(x, y, phase),
        bayer_channel(x, y + 2, phase) == bayer_channel(x, y, phase),
{
}

/// The number of blocks of side 64 that cover `len` pixels.
pub open spec fn phase_blocks(len: int) -> int {
    (len + 63) / 64
}

/// The block (row-major among the blocks of side 64) that holds pixel `q` of an image with rows
/// of `width` pixels.
pub open spec fn block_of(q: int, width: int) -> int {
    ((q / width) / 64) * phase_blocks(width) + (q % width) / 64
}

/// How many of the first `k` pixels lie in block `b` and have phase `ph`.
pub open spec fn phase_count(phase: Seq<u8>, width: int, k: int, b: int, ph: int) -> int
    decreases k,
{
    if k <= 0 {
        0
    } else {
        phase_count(phase, width, k - 1, b, ph) + if block_of(k - 1, width) == b && phase[k - 1]
            == ph {
            1int
        } else {
            0int
        }
    }
}

/// A count over `k` pixels is at most `k`.
proof fn lemma_phase_count_bound(phase: Seq<u8>, width: int, k: int, b: int, ph: int)
    requires
        k >= 0,
    ensures
        0 <= phase_count(phase, width, k, b, ph) <= k,
    decreases k,
{
    if k > 0 {
        lemma_phase_count_bound(phase, width, k - 1, b, ph);
    }
}

/// The sum over the first `nb` blocks of the counts of phase `ph` (entries `b * 4 + ph`).
pub open spec fn phase_total(counts: Seq<u64>, nb: int, ph: int) -> int
    decreases nb,
{
    if nb <= 0 {
        0
    } else {
        phase_total(counts, nb - 1, ph) + counts[(nb - 1) * 4 + ph]
    }
}

/// `g` is the phase with the largest total, the last such where several tie; 0 where every
/// total is zero.
pub open spec fn is_global_phase(totals: Seq<u64>, g: int) -> bool {
    if totals[0] + totals[1] + totals[2] + totals[3] == 0 {
        g == 0
    } else {
        &&& 0 <= g < 4
        &&& forall|k: int| 0 <= k < 4 ==> totals[k] <= totals[g]
        &&& forall|k: int| g < k < 4 ==> totals[k] < totals[g]
    }
}

/// Mosaic analysis: consistency of the Bayer phase across the image.
pub struct MosaicAnalysisPlugin;

impl MosaicAnalysisPlugin {
    /// For every 64 by 64 block (row-major) and every phase below 4, how many pixels of the block
    /// have that phase in `phase` (a row-major map of a `width` by `height` image): entry
    /// `b * 4 + ph`.
    pub fn block_histograms(phase: &Vec<u8>, width: usize, height: usize) -> (counts: Vec<u64>)
        requires
            phase@.len() == width * height,
            width >= 1,
            width * height * 4 <= usize::MAX,
        ensures
            counts@.len() == 4 * (phase_blocks(width as int) * phase_blocks(height as int)),
            forall|j: int| 0 <= j < counts@.len() ==> counts@[j] <= width * height,
            forall|j: int|
                0 <= j < counts@.len() ==> #[trigger] counts@[j] == phase_count(
                    phase@,
                    width as int,
                    (width * height) as int,
                    j / 4,
                    j % 4,
                ),
    {
        let n: usize = phase.len();
        let nbx: usize = width / 64 + if width % 64 == 0 { 0 } else { 1 };
        let nby: usize = height / 64 + if height % 64 == 0 { 0 } else { 1 };
        proof {
            assert(nbx == phase_blocks(width as int));
            assert(nby == phase_blocks(height as int));
            assert(nbx <= width);
            assert(nby <= height);
            assert(nbx * nby <= width * height) by (nonlinear_arith)
                requires nbx <= width, nby <= height;
        }
        let nb: usize = nbx * nby;
        let mut counts: Vec<u64> = vec![0u64; 4 * nb];
        let mut p: usize = 0;
        while p < n
            invariant
                n == phase@.len(),
                n == width * height,
                width >= 1,
                nbx == phase_blocks(width as int),
                nby == phase_blocks(height as int),
                nb == nbx * nby,
                4 * nb <= usize::MAX,
                counts@.len() == 4 * nb,
                p <= n,
                forall|j: int|
                    0 <= j < counts@.len() ==> #[trigger] counts@[j] == phase_count(
                        phase@,
                        width as int,
                        p as int,
                        j / 4,
                        j % 4,
                    ),
                forall|j: int| 0 <= j < counts@.len() ==> counts@[j] <= p,
            decreases n - p,
        {
            let ph: u8 = phase[p];
            if ph < 4 {
                let bx: usize = (p % width) / 64;
                let by: usize = (p / width) / 64;
                proof {
                    vstd::arithmetic::div_mod::lemma_fundamental_div_mod(p as int, width as int);
                    assert(p / width < height) by (nonlinear_arith)
                        requires p < width * height, width >= 1, p == width * (p / width) + p % width, p % width >= 0;
                    assert(bx < nbx);
                    assert(by < nby);
                    assert(by * nbx + bx < nbx * nby) by (nonlinear_arith)
                        requires by < nby, bx < nbx;
                }
                let b: usize = by * nbx + bx;
                proof {
                    assert(b * 4 + 4 <= 4 * nb);
                }
                let j: usize = b * 4 + ph as usize;
                proof {
                    vstd::arithmetic::div_mod::lemma_fundamental_div_mod_converse(
                        j as int,
                        4,
                        b as int,
                        ph as int,
                    );
                    lemma_phase_count_bound(phase@, width as int, p as int, b as int, ph as int);
                }
                let c: u64 = counts[j];
                counts.set(j, c + 1);
                proof {
                    assert forall|i: int| 0 <= i < counts@.len() implies #[trigger] counts@[i]
                        == phase_count(phase@, width as int, p + 1, i / 4, i % 4) by {
                        if i != j {
                            if i / 4 == b && i % 4 == ph {
                                vstd::arithmetic::div_mod::lemma_fundamental_div_mod(i, 4);
                            }
                        }
                    }
                }
            } else {
                proof {
                    assert forall|i: int| 0 <= i < counts@.len() implies #[trigger] counts@[i]
                        == phase_count(phase@, width as int, p + 1, i / 4, i % 4) by {
                        vstd::arithmetic::div_mod::lemma_fundamental_div_mod(i, 4);
                    }
                }
            }
            p += 1;
        }
        counts
    }

    /// The totals over the first `nb` blocks of the counts of each phase below 4.
    pub fn phase_totals(counts: &Vec<u64>, nb: usize) -> (totals: Vec<u64>)
        requires
            counts@.len() == 4 * nb,
            forall|j: int| 0 <= j < counts@.len() ==> counts@[j] <= u32::MAX,
            nb <= u32::MAX,
        ensures
            totals@.len() == 4,
            forall|ph: int| 0 <= ph < 4 ==> #[trigger] totals@[ph] == phase_total(counts@, nb as int, ph),
    {
        let clen: usize = counts.len();
        let mut totals: Vec<u64> = Vec::new();
        let mut ph: usize = 0;
        while ph < 4
            invariant
                clen == counts@.len(),
                counts@.len() == 4 * nb,
                forall|j: int| 0 <= j < counts@.len() ==> counts@[j] <= u32::MAX,
                nb <= u32::MAX,
                ph <= 4,
                totals@.len() == ph,
                forall|k: int| 0 <= k < ph ==> #[trigger] totals@[k] == phase_total(counts@, nb as int, k),
            decreases 4 - ph,
        {
            let mut t: u64 = 0;
            let mut b: usize = 0;
            while b < nb
                invariant
                    clen == counts@.len(),
                    counts@.len() == 4 * nb,
                    forall|j: int| 0 <= j < counts@.len() ==> counts@[j] <= u32::MAX,
                    nb <= u32::MAX,
                    ph < 4,
                    b <= nb,
                    t == phase_total(counts@, b as int, ph as int),
                    t <= (u32::MAX as int) * (b as int),
                decreases nb - b,
            {
                proof {
                    assert((u32::MAX as int) * (b as int) + u32::MAX <= (u32::MAX as int) * ((b + 1) as int)) by (nonlinear_arith);
                    assert((u32::MAX as int) * ((b + 1) as int) <= (u32::MAX as int) * (u32::MAX as int)) by (nonlinear_arith)
                        requires b + 1 <= u32::MAX;
                }
                t = t + counts[b * 4 + ph];
                b += 1;
            }
            totals.push(t);
            ph += 1;
        }
        totals
    }

    /// Whether the image is too small for phase estimation (under 8 pixels in a direction); the
    /// analysis then shows the image itself.
    pub fn too_small(width: u32, height: u32) -> (r: bool)
        ensures
            r == (width < 8 || height < 8),
    {
        width < 8 || height < 8
    }

    /// The phase with the largest total, the last one where several tie; 0 where all totals are
    /// zero.
    pub fn global_phase(totals: &Vec<u64>) -> (g: usize)
        requires
            totals@.len() == 4,
            forall|k: int| 0 <= k < 4 ==> totals@[k] <= u32::MAX,
        ensures
            is_global_phase(totals@, g as int),
    {
        if totals[0] + totals[1] + totals[2] + totals[3] == 0 {
            return 0;
        }
        let mut g: usize = 0;
        let mut k: usize = 1;
        while k < 4
            invariant
                totals@.len() == 4,
                1 <= k <= 4,
                g < k,
                forall|i: int| 0 <= i < k ==> totals@[i] <= totals@[g as int],
                forall|i: int| g < i < k ==> totals@[i] < totals@[g as int],
            decreases 4 - k,
        {
            if totals[k] >= totals[g] {
                g = k;
            }
            k += 1;
        }
        g
    }

    /// The analysis name shown to users.
    pub fn name(&self) -> (s: &'static str)
        ensures
            s@ == "Mosaic Analysis"@,
    {
        "Mosaic Analysis"
    }

    /// What the analysis shows.
    pub fn description(&self) -> (s: &'static str)
        ensures
            s@ == "Analyzes CFA mosaic coherence using local phase estimation and a-contrario validation, based on the mimic method presented at ACIVS 2023. The algorithm detects Bayer pattern inconsistencies by examining the periodic structure of the color filter array at a local level. A-contrario thresholding ensures that only statistically significant deviations from the expected mosaic pattern are reported. This technique is particularly effective at revealing small spliced regions or objects pasted from different camera sources. Bright areas in the output indicate regions where the CFA pattern is disrupted, pointing to potential forgeries."@,
    {
        "Analyzes CFA mosaic coherence using local phase estimation and a-contrario validation, based on the mimic method presented at ACIVS 2023. The algorithm detects Bayer pattern inconsistencies by examining the periodic structure of the color filter array at a local level. A-contrario thresholding ensures that only statistically significant deviations from the expected mosaic pattern are reported. This technique is particularly effective at revealing small spliced regions or objects pasted from different camera sources. Bright areas in the output indicate regions where the CFA pattern is disrupted, pointing to potential forgeries."
    }

    /// Where the method is described.
    pub fn reference(&self) -> (s: &'static str)
        ensures
            s@ == "https://doi.org/10.1007/978-3-031-45382-3_19"@,
    {
        "https://doi.org/10.1007/978-3-031-45382-3_19"
    }
}

/// The constructor that the plugin host calls.
pub fn create_mosaic_analysis_plugin() -> (p: MosaicAnalysisPlugin) {
    MosaicAnalysisPlugin
}

} // verus!
