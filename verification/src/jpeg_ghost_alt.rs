//! JPEG Ghost with a colour-gradient rendering: the squared re-compression error summed over a
//! sliding normalization window.
use vstd::prelude::*;
use crate::codec::jpeg_encoder_rgb_output;
use crate::errormap::{bounded_errors, pixel_sq_error, squared_error_map, MAX_SQUARED_ERROR};
use crate::raster::RgbImage;
use crate::recompress::recompress;

verus! {

/// The fixed JPEG quality of the re-compression.
pub const GHOST_ALT_QUALITY: u8 = 90;

/// The fixed side of the normalization window.
pub const GHOST_ALT_NORM: usize = 16;

/// Where the window starts along an axis of `len` pixels for the pixel at `pos`: at 0 where the
/// window covers the axis, else at `(len - norm) * pos / (len - 1)` rounded down.
pub open spec fn alt_window_start(len: int, norm: int, pos: int) -> int {
    if norm >= len {
        0
    } else {
        (len - norm) * pos / (len - 1)
    }
}

/// How many pixels the window spans along an axis: the whole axis where `norm` covers it,
/// else `norm`.
pub open spec fn alt_window_len(len: int, norm: int) -> int {
    if norm >= len {
        len
    } else {
        norm
    }
}

/// The flat indices of the window of the pixel at flat position `pos` in a `width` by `height`
/// image, row by row and left to right within a row.
pub open spec fn norm_window(width: int, height: int, pos: int, norm: int) -> Seq<usize> {
    let xs = alt_window_start(width, norm, pos % width);
    let ys = alt_window_start(height, norm, pos / width);
    let lx = alt_window_len(width, norm);
    let ly = alt_window_len(height, norm);
    Seq::new((lx * ly) as nat, |k: int| ((xs + k % lx) + (ys + k / lx) * width) as usize)
}

/// The sum of `err` over the first `k` indices of `idx`.
pub open spec fn indexed_sum(err: Seq<u32>, idx: Seq<usize>, k: int) -> int
    decreases k,
{
    if k <= 0 {
        0
    } else {
        indexed_sum(err, idx, k - 1) + err[idx[k - 1] as int]
    }
}

/// The inputs on which the window is defined: a non-empty image whose sides do not overflow
/// when multiplied together, a position inside it, and a window that leaves a one-pixel axis
/// only where it covers it.
pub open spec fn window_args_ok(width: int, height: int, pos: int, norm: int) -> bool {
    &&& width >= 1
    &&& height >= 1
    &&& width * height <= usize::MAX
    &&& width * width <= usize::MAX
    &&& height * height <= usize::MAX
    &&& 0 <= pos < width * height
    &&& (norm < width ==> width > 1)
    &&& (norm < height ==> height > 1)
}

/// The window start stays in range.
proof fn lemma_alt_window_inside(len: int, norm: int, pos: int)
    requires
        len >= 1,
        norm >= 0,
        0 <= pos < len,
        norm < len ==> len > 1,
    ensures
        0 <= alt_window_start(len, norm, pos),
        alt_window_start(len, norm, pos) + alt_window_len(len, norm) <= len,
        norm < len ==> (len - norm) * pos <= len * len,
{
    if norm < len {
        assert((len - norm) * pos <= (len - norm) * (len - 1)) by (nonlinear_arith)
            requires 0 <= pos <= len - 1, norm < len;
        assert((len - norm) * (len - 1) / (len - 1) == len - norm) by (nonlinear_arith)
            requires len > 1;
        assert((len - norm) * pos / (len - 1) <= (len - norm) * (len - 1) / (len - 1)) by (nonlinear_arith)
            requires (len - norm) * pos <= (len - norm) * (len - 1), len > 1;
        assert(0 <= (len - norm) * pos) by (nonlinear_arith)
            requires 0 <= pos, norm < len;
        assert((len - norm) * pos <= len * len) by (nonlinear_arith)
            requires 0 <= pos <= len - 1, norm < len, norm >= 0;
    }
}

/// JPEG Ghost with an alternative colour-gradient rendering.
pub struct JPEGGhostAltPlugin;

impl JPEGGhostAltPlugin {
    /// The flat indices of the `norm` by `norm` window of the pixel at flat position `pos`:
    /// the window slides from the top-left corner to the bottom-right corner as `pos` moves
    /// across the image, and covers a whole axis that is not longer than `norm`.
    pub fn get_norm_window(&self, width: usize, height: usize, pos: usize, norm: usize) -> (index:
        Vec<usize>)
        requires
            window_args_ok(width as int, height as int, pos as int, norm as int),
        ensures
            index@ == norm_window(width as int, height as int, pos as int, norm as int),
            forall|k: int| 0 <= k < index@.len() ==> index@[k] < width * height,
    {
        let x_pos: usize = pos % width;
        let y_pos: usize = pos / width;
        proof {
            vstd::arithmetic::div_mod::lemma_fundamental_div_mod(pos as int, width as int);
            assert(y_pos < height) by (nonlinear_arith)
                requires pos == width * y_pos + x_pos, 0 <= x_pos, pos < width * height, width >= 1;
            lemma_alt_window_inside(width as int, norm as int, x_pos as int);
            lemma_alt_window_inside(height as int, norm as int, y_pos as int);
        }
        let (w_xb, l_x): (usize, usize) = if norm >= width {
            (0, width)
        } else {
            (((width - norm) * x_pos) / (width - 1), norm)
        };
        let (w_yb, l_y): (usize, usize) = if norm >= height {
            (0, height)
        } else {
            (((height - norm) * y_pos) / (height - 1), norm)
        };
        let ghost spec_window = norm_window(width as int, height as int, pos as int, norm as int);
        let mut index: Vec<usize> = Vec::new();
        let mut y: usize = 0;
        while y < l_y
            invariant
                window_args_ok(width as int, height as int, pos as int, norm as int),
                w_xb == alt_window_start(width as int, norm as int, (pos % width) as int),
                w_yb == alt_window_start(height as int, norm as int, (pos / width) as int),
                l_x == alt_window_len(width as int, norm as int),
                l_y == alt_window_len(height as int, norm as int),
                w_xb + l_x <= width,
                w_yb + l_y <= height,
                spec_window == norm_window(width as int, height as int, pos as int, norm as int),
                y <= l_y,
                index@.len() == y * l_x,
                forall|k: int| 0 <= k < index@.len() ==> index@[k] == spec_window[k],
                forall|k: int| 0 <= k < index@.len() ==> index@[k] < width * height,
            decreases l_y - y,
        {
            let mut x: usize = 0;
            while x < l_x
                invariant
                    window_args_ok(width as int, height as int, pos as int, norm as int),
                    w_xb == alt_window_start(width as int, norm as int, (pos % width) as int),
                    w_yb == alt_window_start(height as int, norm as int, (pos / width) as int),
                    l_x == alt_window_len(width as int, norm as int),
                    l_y == alt_window_len(height as int, norm as int),
                    w_xb + l_x <= width,
                    w_yb + l_y <= height,
                        spec_window == norm_window(width as int, height as int, pos as int, norm as int),
                    y < l_y,
                    x <= l_x,
                    index@.len() == y * l_x + x,
                    forall|k: int| 0 <= k < index@.len() ==> index@[k] == spec_window[k],
                    forall|k: int| 0 <= k < index@.len() ==> index@[k] < width * height,
                decreases l_x - x,
            {
                proof {
                    assert((w_yb + y) * width + (w_xb + x) < width * height) by (nonlinear_arith)
                        requires w_yb + y + 1 <= height, w_xb + x < width;
                    let k = (y * l_x + x) as int;
                    vstd::arithmetic::div_mod::lemma_fundamental_div_mod_converse(
                        k,
                        l_x as int,
                        y as int,
                        x as int,
                    );
                    assert(y * l_x + x < l_x * l_y) by (nonlinear_arith)
                        requires y + 1 <= l_y, x < l_x;
                }
                index.push((w_xb + x) + (w_yb + y) * width);
                x += 1;
            }
            proof {
                assert((y + 1) * l_x == y * l_x + l_x) by (nonlinear_arith);
            }
            y += 1;
        }
        proof {
            assert(l_y * l_x == l_x * l_y) by (nonlinear_arith);
            assert(index@ =~= spec_window);
        }
        index
    }

    /// The sum of `err` over the indices in `window`.
    pub fn window_sum(err: &Vec<u32>, window: &Vec<usize>) -> (total: u128)
        requires
            bounded_errors(err@),
            forall|k: int| 0 <= k < window@.len() ==> window@[k] < err@.len(),
        ensures
            total == indexed_sum(err@, window@, window@.len() as int),
    {
        let n: usize = window.len();
        let mut total: u128 = 0;
        let mut k: usize = 0;
        while k < n
            invariant
                n == window@.len(),
                bounded_errors(err@),
                forall|j: int| 0 <= j < window@.len() ==> window@[j] < err@.len(),
                k <= n,
                total == indexed_sum(err@, window@, k as int),
                total <= MAX_SQUARED_ERROR * k,
            decreases n - k,
        {
            total = total + err[window[k]] as u128;
            k += 1;
        }
        total
    }

    /// For every pixel, in row-major order, the sum of the squared-error map `err` over the
    /// pixel's window of side `norm` (as `get_norm_window` gives it).
    pub fn window_sums(&self, err: &Vec<u32>, width: usize, height: usize, norm: usize) -> (sums:
        Vec<u128>)
        requires
            err@.len() == width * height,
            bounded_errors(err@),
            window_args_ok(width as int, height as int, 0, norm as int),
        ensures
            sums@.len() == width * height,
            forall|p: int|
                0 <= p < sums@.len() ==> sums@[p] == indexed_sum(
                    err@,
                    norm_window(width as int, height as int, p, norm as int),
                    norm_window(width as int, height as int, p, norm as int).len() as int,
                ),
    {
        let n: usize = err.len();
        let mut sums: Vec<u128> = Vec::with_capacity(n);
        let mut p: usize = 0;
        while p < n
            invariant
                n == err@.len(),
                n == width * height,
                bounded_errors(err@),
                window_args_ok(width as int, height as int, 0, norm as int),
                p <= n,
                sums@.len() == p,
                forall|q: int|
                    0 <= q < p ==> sums@[q] == indexed_sum(
                        err@,
                        norm_window(width as int, height as int, q, norm as int),
                        norm_window(width as int, height as int, q, norm as int).len() as int,
                    ),
            decreases n - p,
        {
            let window = self.get_norm_window(width, height, p, norm);
            sums.push(Self::window_sum(err, &window));
            p += 1;
        }
        sums
    }

    /// The smallest and the largest of the window sums, or `None` where they are all equal (or
    /// there are none): then the map has no contrast to show.
    pub fn sum_range(sums: &Vec<u128>) -> (r: Option<(u128, u128)>)
        ensures
            r is None <==> forall|i: int, j: int|
                0 <= i < sums@.len() && 0 <= j < sums@.len() ==> #[trigger] sums@[i] == #[trigger] sums@[j],
            r matches Some(b) ==> b.0 < b.1 && (exists|i: int| 0 <= i < sums@.len() && sums@[i] == b.0)
                && (exists|i: int| 0 <= i < sums@.len() && sums@[i] == b.1) && forall|i: int|
                0 <= i < sums@.len() ==> b.0 <= #[trigger] sums@[i] <= b.1,
    {
        let n: usize = sums.len();
        if n == 0 {
            return None;
        }
        let mut lo: u128 = sums[0];
        let mut hi: u128 = sums[0];
        let mut i: usize = 1;
        while i < n
            invariant
                n == sums@.len(),
                1 <= i <= n,
                exists|k: int| 0 <= k < i && sums@[k] == lo,
                exists|k: int| 0 <= k < i && sums@[k] == hi,
                forall|k: int| 0 <= k < i ==> lo <= #[trigger] sums@[k] <= hi,
            decreases n - i,
        {
            let v: u128 = sums[i];
            if v < lo {
                lo = v;
            }
            if v > hi {
                hi = v;
            }
            i += 1;
        }
        if lo < hi {
            Some((lo, hi))
        } else {
            assert forall|a: int, b: int| 0 <= a < n && 0 <= b < n implies #[trigger] sums@[a]
                == #[trigger] sums@[b] by {
                assert(lo <= sums@[a] <= hi);
                assert(lo <= sums@[b] <= hi);
            }
            None
        }
    }

    /// The squared-error map of `img` against its re-compression at quality 90, or `None`
    /// where re-compression fails.
    pub fn squared_errors(&self, img: &RgbImage) -> (r: Option<Vec<u32>>)
        requires
            img.wf(),
        ensures
            jpeg_encoder_rgb_output(img.data@, img.width as u16, img.height as u16, GHOST_ALT_QUALITY)
                is None ==> r is None,
            r matches Some(err) ==> err@.len() == img.width * img.height && bounded_errors(err@)
                && exists|c: RgbImage|
                c.wf() && c.same_size(img) && forall|p: int|
                    0 <= p < err@.len() ==> err@[p] == pixel_sq_error(img.data@, c.data@, p),
    {
        match recompress(img, GHOST_ALT_QUALITY) {
            Some(c) => Some(squared_error_map(img, &c)),
            None => None,
        }
    }

    /// The analysis name shown to users.
    pub fn name(&self) -> (s: &'static str)
        ensures
            s@ == "JPEG Ghost Alt"@,
    {
        "JPEG Ghost Alt"
    }

    /// What the analysis shows.
    pub fn description(&self) -> (s: &'static str)
        ensures
            s@ == "Detects JPEG ghost artifacts using an alternative color gradient visualization approach. The algorithm re-saves the image at a fixed JPEG quality and encodes the error levels into a red-to-green-to-blue color gradient for enhanced visual interpretation. Each color channel maps to a different error intensity range, making it easier to distinguish subtle compression inconsistencies. This method provides a complementary view to the standard JPEG ghost detection, particularly useful when analyzing images with complex compression histories. The color gradient output allows rapid visual identification of regions with differing compression origins."@,
    {
        "Detects JPEG ghost artifacts using an alternative color gradient visualization approach. The algorithm re-saves the image at a fixed JPEG quality and encodes the error levels into a red-to-green-to-blue color gradient for enhanced visual interpretation. Each color channel maps to a different error intensity range, making it easier to distinguish subtle compression inconsistencies. This method provides a complementary view to the standard JPEG ghost detection, particularly useful when analyzing images with complex compression histories. The color gradient output allows rapid visual identification of regions with differing compression origins."
    }

    /// No bibliographic reference.
    pub fn reference(&self) -> (s: &'static str)
        ensures
            s@ == ""@,
    {
        ""
    }
}

/// The constructor that the plugin host calls.
pub fn create_jpeg_ghost_alt_plugin() -> (p: JPEGGhostAltPlugin) {
    JPEGGhostAltPlugin
}

} // verus!
