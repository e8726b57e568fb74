//! Properties that relate the analyses' results across inputs and calls.
use vstd::prelude::*;
use crate::arith::{abs_diff, blend255, min};
use crate::cfa_detector::{cfa_channel_error, cfa_error};
use crate::raster::RgbImage;
use crate::forensically_ela::overlay_channel;
use crate::gradient_forensics::{gradient_value, gat, sobel_x, sobel_y};
use crate::noise_analysis::{count_at_most, intensity, noise_channel};
use crate::sherloq_ghost::rolled_source;
use crate::texture_inconsistency::{block_sum, row_sum, texture_value};
use vstd::arithmetic::div_mod::{lemma_mod_bound, lemma_mod_twice, lemma_sub_mod_noop};

verus! {

/// Error levels of an image against itself are zero: with no re-compression error every channel
/// of the basic error-level view is black.
pub proof fn lemma_ela_of_unchanged_image_is_black(v: int, gain: int)
    requires
        0 <= v <= 255,
        gain >= 0,
    ensures
        min(abs_diff(v, v) * gain, 255) == 0,
{
    assert(abs_diff(v, v) == 0);
    assert(0 * gain == 0);
}

/// The channel difference does not depend on which image comes first.
pub proof fn lemma_difference_symmetric(a: int, b: int)
    ensures
        abs_diff(a, b) == abs_diff(b, a),
{
}

/// Blending at opacity 0 shows the original; at opacity 255 it shows the overlay; blending a
/// value over itself leaves it unchanged.
pub proof fn lemma_blend_extremes(a: int, b: int, t: int)
    requires
        0 <= a <= 255,
        0 <= b <= 255,
        0 <= t <= 255,
    ensures
        blend255(a, b, 0) == a,
        blend255(a, b, 255) == b,
        blend255(a, a, t) == a,
{
    assert((a * 255 + 127) / 255 == a) by (nonlinear_arith)
        requires 0 <= a <= 255;
    assert((b * 255 + 127) / 255 == b) by (nonlinear_arith)
        requires 0 <= b <= 255;
    assert(a * (255 - t) + a * t == a * 255) by (nonlinear_arith);
}

/// The Forensically error view at opacity 0 is the original image, and at full opacity it is
/// the scaled error alone.
pub proof fn lemma_overlay_opacity_extremes(orig: u8, resaved: u8, scale: u8)
    ensures
        overlay_channel(orig, resaved, scale, 0) == orig,
        overlay_channel(orig, resaved, scale, 255) == min(abs_diff(orig as int, resaved as int) * scale, 255),
{
    let s = min(abs_diff(orig as int, resaved as int) * scale, 255);
    assert(0 <= s <= 255) by (nonlinear_arith)
        requires s == min(abs_diff(orig as int, resaved as int) * scale, 255), scale >= 0;
    lemma_blend_extremes(orig as int, s, 0);
}

/// Rolling by `a` and then by `c` is rolling by `a + c`: shifts compose.
pub proof fn lemma_roll_composes(len: int, a: int, c: int, x: int)
    requires
        len > 0,
        a >= 0,
        c >= 0,
        0 <= x < len,
    ensures
        0 <= rolled_source(len, c, x) < len,
        rolled_source(len, a, rolled_source(len, c, x)) == rolled_source(len, a + c, x),
{
    lemma_mod_bound(x + len - c % len, len);
    let y = rolled_source(len, c, x);
    assert forall|s: int, z: int| s >= 0 && 0 <= z < len implies #[trigger] rolled_source(len, s, z)
        == (z - s) % len by {
        lemma_mod_bound(s, len);
        vstd::arithmetic::div_mod::lemma_mod_add_multiples_vanish(z - s % len, len);
        vstd::arithmetic::div_mod::lemma_fundamental_div_mod(s, len);
        assert(z - s % len == (z - s) + len * (s / len)) by (nonlinear_arith)
            requires s == len * (s / len) + s % len;
        vstd::arithmetic::div_mod::lemma_mod_multiples_vanish(s / len, z - s, len);
    }
    assert(y == (x - c) % len);
    assert(rolled_source(len, a, y) == (y - a) % len);
    lemma_sub_mod_noop(x - c, a, len);
    lemma_mod_twice(x - c, len);
    lemma_mod_bound(a, len);
    assert(((x - c) % len - a) % len == ((x - c) - a) % len) by {
        lemma_sub_mod_noop(x - c, a, len);
        lemma_mod_twice(x - c, len);
        lemma_sub_mod_noop((x - c) % len, a, len);
    }
    assert((x - c) - a == x - (a + c));
}

/// Rolling by no shift, or by a whole turn, leaves every pixel in place.
pub proof fn lemma_roll_identity(len: int, x: int)
    requires
        len > 0,
        0 <= x < len,
    ensures
        rolled_source(len, 0, x) == x,
        rolled_source(len, len, x) == x,
{
    vstd::arithmetic::div_mod::lemma_mod_self_0(len);
    vstd::arithmetic::div_mod::lemma_small_mod(0nat, len as nat);
    vstd::arithmetic::div_mod::lemma_mod_add_multiples_vanish(x, len);
    vstd::arithmetic::div_mod::lemma_small_mod(x as nat, len as nat);
}

/// An image that equals its median filter has no noise: its noise layer is uniform gray (128)
/// whatever the gain.
pub proof fn lemma_noise_of_median_is_gray(v: int, amp: int)
    ensures
        noise_channel(v, v, amp) == 128,
{
}

/// The cumulative intensity histogram never decreases and ends with the number of pixels.
pub proof fn lemma_cdf_monotone_and_total(data: Seq<u8>, n: int, v: int, w: int)
    requires
        0 <= n,
        3 * n <= data.len(),
        v <= w,
    ensures
        count_at_most(data, n, v) <= count_at_most(data, n, w),
        count_at_most(data, n, 255) == n,
    decreases n,
{
    if n > 0 {
        lemma_cdf_monotone_and_total(data, n - 1, v, w);
        assert(intensity(data, n - 1) <= 255) by (nonlinear_arith)
            requires intensity(data, n - 1) == (data[3 * (n - 1)] + data[3 * (n - 1) + 1] + data[3 * (n - 1) + 2]) / 3,
                data[3 * (n - 1)] <= 255, data[3 * (n - 1) + 1] <= 255, data[3 * (n - 1) + 2] <= 255;
    }
}

/// Every pixel of a flat gray map has the gray level of its first pixel.
proof fn lemma_flat_at(g: Seq<u8>, w: int, h: int, x: int, y: int)
    requires
        0 <= x < w,
        0 <= y < h,
        g.len() == w * h,
        forall|i: int, j: int| 0 <= i < g.len() && 0 <= j < g.len() ==> g[i] == g[j],
    ensures
        gat(g, w, x, y) == g[0] as int,
{
    assert(0 <= y * w + x < w * h) by (nonlinear_arith)
        requires 0 <= x < w, 0 <= y < h;
    assert(g[y * w + x] == g[0]);
}

/// A flat gray map has no gradient: every pixel of its gradient view is black.
pub proof fn lemma_flat_gradient_is_black(g: Seq<u8>, w: int, h: int, x: int, y: int, v: int)
    requires
        w >= 1,
        0 <= x < w,
        0 <= y < h,
        g.len() == w * h,
        forall|i: int, j: int| 0 <= i < g.len() && 0 <= j < g.len() ==> g[i] == g[j],
        gradient_value(g, w, h, x, y, v),
    ensures
        v == 0,
{
    if 1 <= x < w - 1 && 1 <= y < h - 1 {
        lemma_flat_at(g, w, h, x - 1, y - 1);
        lemma_flat_at(g, w, h, x, y - 1);
        lemma_flat_at(g, w, h, x + 1, y - 1);
        lemma_flat_at(g, w, h, x - 1, y);
        lemma_flat_at(g, w, h, x + 1, y);
        lemma_flat_at(g, w, h, x - 1, y + 1);
        lemma_flat_at(g, w, h, x, y + 1);
        lemma_flat_at(g, w, h, x + 1, y + 1);
        assert(sobel_x(g, w, x, y) == 0);
        assert(sobel_y(g, w, x, y) == 0);
        let sx = sobel_x(g, w, x, y);
        let sy = sobel_y(g, w, x, y);
        assert(25 * (sx * sx + sy * sy) == 0) by (nonlinear_arith)
            requires sx == 0, sy == 0;
        assert(v * v <= 0);
        assert(v == 0) by (nonlinear_arith)
            requires v * v <= 0, v >= 0;
    }
}

/// The sum of a run of a flat gray map is the run's length times the gray level.
proof fn lemma_flat_row_sum(g: Seq<u8>, w: int, h: int, x0: int, y: int, len: int, c: int)
    requires
        w >= 1,
        0 <= y < h,
        0 <= x0,
        0 <= len,
        x0 + len <= w,
        g.len() == w * h,
        forall|i: int| 0 <= i < g.len() ==> g[i] == c,
    ensures
        row_sum(g, w, x0, y, len) == len * c,
    decreases len,
{
    if len > 0 {
        lemma_flat_row_sum(g, w, h, x0, y, len - 1, c);
        assert(0 <= y * w + x0 + len - 1 < w * h) by (nonlinear_arith)
            requires 0 <= y < h, 0 <= x0, x0 + len <= w, len >= 1;
        assert((len - 1) * c + c == len * c) by (nonlinear_arith);
    } else {
        assert(len * c == 0) by (nonlinear_arith) requires len == 0;
    }
}

/// The sum of a block of a flat gray map is the block's area times the gray level.
proof fn lemma_flat_block_sum(g: Seq<u8>, w: int, h: int, x0: int, y0: int, side: int, rows: int, c: int)
    requires
        w >= 1,
        0 <= x0,
        0 <= y0,
        0 <= side,
        0 <= rows,
        x0 + side <= w,
        y0 + rows <= h,
        g.len() == w * h,
        forall|i: int| 0 <= i < g.len() ==> g[i] == c,
    ensures
        block_sum(g, w, x0, y0, side, rows) == rows * side * c,
    decreases rows,
{
    if rows > 0 {
        lemma_flat_block_sum(g, w, h, x0, y0, side, rows - 1, c);
        lemma_flat_row_sum(g, w, h, x0, y0 + rows - 1, side, c);
        assert((rows - 1) * side * c + side * c == rows * side * c) by (nonlinear_arith);
    } else {
        assert(rows * side * c == 0) by (nonlinear_arith) requires rows == 0;
    }
}

/// A flat gray map has no texture inconsistency: every pixel of its texture view is black.
pub proof fn lemma_flat_texture_is_black(g: Seq<u8>, w: int, h: int, x: int, y: int)
    requires
        w >= 1,
        0 <= x < w,
        0 <= y < h,
        g.len() == w * h,
        forall|i: int, j: int| 0 <= i < g.len() && 0 <= j < g.len() ==> g[i] == g[j],
    ensures
        texture_value(g, w, h, x, y) == 0,
{
    if 3 <= x < w - 3 && 3 <= y < h - 3 {
        let c = g[0] as int;
        assert forall|i: int| 0 <= i < g.len() implies g[i] == c by {
            assert(g[i] == g[0]);
        }
        lemma_flat_block_sum(g, w, h, x - 3, y - 3, 7, 7, c);
        assert(0 <= y * w + x < w * h) by (nonlinear_arith)
            requires 0 <= x < w, 0 <= y < h;
        assert(gat(g, w, x, y) == c);
        assert(7 * 7 * c == 49 * c);
    }
}

/// Every pixel of an image whose pixels all share one colour has that colour.
proof fn lemma_flat_rgb_at(img: RgbImage, x: int, y: int, c: int)
    requires
        img.wf(),
        0 <= x < img.width,
        0 <= y < img.height,
        0 <= c < 3,
        forall|p: int, k: int| 0 <= p < img.width * img.height && 0 <= k < 3 ==> #[trigger] img.data@[3 * p + k] == img.data@[k],
    ensures
        img.at(x, y, c) == img.data@[c],
{
    let p = y * img.width + x;
    assert(0 <= p < img.width * img.height) by (nonlinear_arith)
        requires p == y * img.width + x, 0 <= x < img.width, 0 <= y < img.height;
    assert((y * img.width + x) * 3 + c == 3 * p + c);
}

/// An image of one colour re-interpolates perfectly: its demosaicing error is zero everywhere.
pub proof fn lemma_flat_cfa_error_is_zero(img: RgbImage, x: int, y: int)
    requires
        img.wf(),
        0 <= x < img.width,
        0 <= y < img.height,
        forall|p: int, k: int| 0 <= p < img.width * img.height && 0 <= k < 3 ==> #[trigger] img.data@[3 * p + k] == img.data@[k],
    ensures
        cfa_error(img, x, y) == 0,
{
    if 2 <= x < img.width - 2 && 2 <= y < img.height - 2 {
        assert forall|c: int| 0 <= c < 3 implies cfa_channel_error(img, x, y, c) == 0 by {
            lemma_flat_rgb_at(img, x, y, c);
            lemma_flat_rgb_at(img, x - 1, y, c);
            lemma_flat_rgb_at(img, x + 1, y, c);
            lemma_flat_rgb_at(img, x, y - 1, c);
            lemma_flat_rgb_at(img, x, y + 1, c);
        }
        assert(cfa_channel_error(img, x, y, 0) == 0);
        assert(cfa_channel_error(img, x, y, 1) == 0);
        assert(cfa_channel_error(img, x, y, 2) == 0);
    }
}

} // verus!
