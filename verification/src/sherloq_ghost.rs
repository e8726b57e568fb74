//! JPEG Ghost after Sherloq: the image, shifted to align the JPEG grid, is re-compressed at a
//! range of qualities; the per-pixel squared error of each quality is laid out as a grid of tiles.
use vstd::prelude::*;
use crate::arith::{clamp, max};
use crate::codec::jpeg_encoder_rgb_output;
use crate::errormap::{bounded_errors, pixel_sq_error, rect_sum, squared_error_map, sum_rect};
use crate::raster::RgbImage;
use crate::recompress::recompress;

verus! {

/// The side of the square blocks over which the error is averaged.
pub const AVG_BLOCK: u32 = 16;

/// The source column of column `x` after a circular shift right by `shift` on `len` columns.
pub open spec fn rolled_source(len: int, shift: int, x: int) -> int {
    (x + len - shift % len) % len
}

/// The qualities `qmin, qmin + qstep, ...` up to `qmax`.
pub open spec fn quality_steps(qmin: int, qmax: int, qstep: int) -> Seq<u8> {
    Seq::new((if qmax >= qmin { (qmax - qmin) / qstep + 1 } else { 0 }) as nat, |i: int| (qmin + i * qstep) as u8)
}

/// The smallest `s` with `s * s >= n`.
pub open spec fn is_ceil_sqrt(n: int, s: int) -> bool {
    s >= 0 && s * s >= n && (s == 0 || (s - 1) * (s - 1) < n)
}

/// Shifts the image circularly by `shift_x` columns and `shift_y` rows: the pixel at `(x, y)` of
/// the result is the pixel of `img` at `rolled_source(width, shift_x, x)`,
/// `rolled_source(height, shift_y, y)`. Pixels pushed past the right or bottom edge reappear on
/// the left or top.
pub fn roll_image(img: &RgbImage, shift_x: u32, shift_y: u32) -> (rolled: RgbImage)
    requires
        img.wf(),
        img.width > 0,
        img.height > 0,
    ensures
        rolled.wf(),
        rolled.same_size(img),
        forall|x: int, y: int, c: int|
            0 <= x < img.width && 0 <= y < img.height && 0 <= c < 3 ==> #[trigger] rolled.at(x, y, c)
                == img.at(
                rolled_source(img.width as int, shift_x as int, x),
                rolled_source(img.height as int, shift_y as int, y),
                c,
            ),
{
    let w: u32 = img.width;
    let h: u32 = img.height;
    let sx: u32 = shift_x % w;
    let sy: u32 = shift_y % h;
    let n: usize = img.data.len();
    let mut data: Vec<u8> = Vec::with_capacity(n);
    let mut y: u32 = 0;
    while y < h
        invariant
            img.wf(),
            w == img.width,
            h == img.height,
            w > 0,
            h > 0,
            n == img.data@.len(),
            sx == shift_x % w,
            sy == shift_y % h,
            y <= h,
            data@.len() == (y * w) * 3,
            forall|x2: int, y2: int, c: int|
                0 <= x2 < w && 0 <= y2 < y && 0 <= c < 3 ==> #[trigger] data@[(y2 * w + x2) * 3 + c]
                    == img.at(
                    rolled_source(w as int, shift_x as int, x2),
                    rolled_source(h as int, shift_y as int, y2),
                    c,
                ),
        decreases h - y,
    {
        let src_y: u32 = ((y as u64 + h as u64 - sy as u64) % (h as u64)) as u32;
        let mut x: u32 = 0;
        while x < w
            invariant
                img.wf(),
                w == img.width,
                h == img.height,
                w > 0,
                h > 0,
                n == img.data@.len(),
                sx == shift_x % w,
                sy == shift_y % h,
                y < h,
                x <= w,
                src_y == rolled_source(h as int, shift_y as int, y as int),
                src_y < h,
                data@.len() == (y * w + x) * 3,
                forall|x2: int, y2: int, c: int|
                    0 <= x2 < w && 0 <= y2 < y && 0 <= c < 3 ==> #[trigger] data@[(y2 * w + x2) * 3 + c]
                        == img.at(
                        rolled_source(w as int, shift_x as int, x2),
                        rolled_source(h as int, shift_y as int, y2),
                        c,
                    ),
                forall|x2: int, c: int|
                    0 <= x2 < x && 0 <= c < 3 ==> #[trigger] data@[(y * w + x2) * 3 + c] == img.at(
                        rolled_source(w as int, shift_x as int, x2),
                        src_y as int,
                        c,
                    ),
            decreases w - x,
        {
            let src_x: u32 = ((x as u64 + w as u64 - sx as u64) % (w as u64)) as u32;
            proof {
                assert(((src_y * w + src_x) * 3 + 2) < (w * h) * 3) by (nonlinear_arith)
                    requires src_y < h, src_x < w;
                assert((y * w + x) * 3 + 3 == (y * w + x + 1) * 3) by (nonlinear_arith);
            }
            let base: usize = ((src_y as usize) * (w as usize) + (src_x as usize)) * 3;
            let ghost before = data@;
            data.push(img.data[base]);
            data.push(img.data[base + 1]);
            data.push(img.data[base + 2]);
            proof {
                assert forall|x2: int, y2: int, c: int|
                    0 <= x2 < w && 0 <= y2 < y && 0 <= c < 3 implies #[trigger] data@[(y2 * w + x2) * 3 + c]
                        == img.at(
                        rolled_source(w as int, shift_x as int, x2),
                        rolled_source(h as int, shift_y as int, y2),
                        c,
                    ) by {
                    assert((y2 * w + x2) * 3 + c < (y * w) * 3) by (nonlinear_arith)
                        requires y2 + 1 <= y, x2 < w, c < 3;
                    assert((y * w) * 3 <= (y * w + x) * 3) by (nonlinear_arith)
                        requires x >= 0;
                }
                assert forall|x2: int, c: int|
                    0 <= x2 < x + 1 && 0 <= c < 3 implies #[trigger] data@[(y * w + x2) * 3 + c] == img.at(
                        rolled_source(w as int, shift_x as int, x2),
                        src_y as int,
                        c,
                    ) by {
                    if x2 < x {
                        assert((y * w + x2) * 3 + c < (y * w + x) * 3) by (nonlinear_arith)
                            requires x2 < x, c < 3;
                    }
                }
            }
            x += 1;
        }
        proof {
            assert((y * w + w) * 3 == ((y + 1) * w) * 3) by (nonlinear_arith);
        }
        y += 1;
    }
    proof {
        assert((h * w) * 3 == w * h * 3) by (nonlinear_arith);
    }
    RgbImage { width: w, height: h, data }
}

/// The smallest `s` with `s * s >= n`, for `n` up to 65536.
pub fn ceil_sqrt(n: usize) -> (s: usize)
    requires
        n <= 65536,
    ensures
        is_ceil_sqrt(n as int, s as int),
{
    let mut s: usize = 0;
    while s * s < n
        invariant
            n <= 65536,
            s <= 256,
            s * s <= 65536,
            s == 0 || (s - 1) * (s - 1) < n,
        decreases 256 - s,
    {
        proof {
            assert(s < 256) by (nonlinear_arith)
                requires s * s < n, n <= 65536, s >= 0;
            assert((s + 1) * (s + 1) <= 65536) by (nonlinear_arith)
                requires s < 256, s >= 0;
        }
        s += 1;
    }
    s
}

/// Channel `c` of pixel `(px, py)` of a grid of `sp` by `sp` tiles, each `blk_w` by `blk_h`
/// blocks of 16 by 16 pixels: tile `qi` (row-major) shows the block colours
/// `colors[((qi * blk_h + by) * blk_w + bx) * 3 + c]` for `qi < nq`; other tiles are black.
pub open spec fn tile_color(
    colors: Seq<u8>,
    blk_h: int,
    blk_w: int,
    nq: int,
    sp: int,
    px: int,
    py: int,
    c: int,
) -> int {
    let sub_w = blk_w * 16;
    let sub_h = blk_h * 16;
    let qi = (py / sub_h) * sp + px / sub_w;
    if qi < nq {
        colors[((qi * blk_h + (py % sub_h) / 16) * blk_w + (px % sub_w) / 16) * 3 + c] as int
    } else {
        0
    }
}

/// The channel value of one grid pixel, as `tile_color` defines it.
fn tile_color_exec(
    colors: &Vec<u8>,
    blk_h: usize,
    blk_w: usize,
    nq: usize,
    sp: usize,
    px: usize,
    py: usize,
    c: usize,
) -> (v: u8)
    requires
        blk_h >= 1,
        blk_w >= 1,
        sp >= 1,
        c < 3,
        px < sp * blk_w * 16,
        py < sp * blk_h * 16,
        sp * blk_w * 16 <= u32::MAX,
        sp * blk_h * 16 <= u32::MAX,
        colors@.len() == nq * blk_h * blk_w * 3,
    ensures
        v == tile_color(colors@, blk_h as int, blk_w as int, nq as int, sp as int, px as int, py as int, c as int),
{
    proof {
        assert(blk_w * 16 <= sp * blk_w * 16) by (nonlinear_arith)
            requires sp >= 1, blk_w >= 1;
        assert(blk_h * 16 <= sp * blk_h * 16) by (nonlinear_arith)
            requires sp >= 1, blk_h >= 1;
    }
    let sub_w: usize = blk_w * 16;
    let sub_h: usize = blk_h * 16;
    proof {
        assert((py as int) / (sub_h as int) < sp) by (nonlinear_arith)
            requires py < sp * blk_h * 16, sub_h == blk_h * 16, blk_h >= 1;
        assert((px as int) / (sub_w as int) < sp) by (nonlinear_arith)
            requires px < sp * blk_w * 16, sub_w == blk_w * 16, blk_w >= 1;
        assert(((py as int) / (sub_h as int)) * sp + (px as int) / (sub_w as int) < sp * sp) by (nonlinear_arith)
            requires (py as int) / (sub_h as int) < sp, (px as int) / (sub_w as int) < sp, (py as int) / (sub_h as int) >= 0, (px as int) / (sub_w as int) >= 0;
        assert(sp <= sp * blk_w * 16) by (nonlinear_arith)
            requires sp >= 1, blk_w >= 1;
        crate::arith::lemma_mul_le(sp as int, sp as int, u32::MAX as int, u32::MAX as int);
    }
    let clen: usize = colors.len();
    let qi64: u64 = ((py / sub_h) as u64) * (sp as u64) + (px / sub_w) as u64;
    if qi64 < nq as u64 {
        let qi: usize = qi64 as usize;
        let by: usize = (py % sub_h) / 16;
        let bx: usize = (px % sub_w) / 16;
        proof {
            assert(by < blk_h) by (nonlinear_arith)
                requires by == ((py as int) % (sub_h as int)) / 16, sub_h == blk_h * 16, blk_h >= 1;
            assert(bx < blk_w) by (nonlinear_arith)
                requires bx == ((px as int) % (sub_w as int)) / 16, sub_w == blk_w * 16, blk_w >= 1;
            assert(((qi * blk_h + by) * blk_w + bx) * 3 + c < nq * blk_h * blk_w * 3) by (nonlinear_arith)
                requires qi < nq, by < blk_h, bx < blk_w, c < 3;
            assert(qi * blk_h + by < nq * blk_h) by (nonlinear_arith)
                requires qi < nq, by < blk_h;
            assert((qi * blk_h + by) * blk_w + bx < nq * blk_h * blk_w) by (nonlinear_arith)
                requires qi * blk_h + by < nq * blk_h, bx < blk_w;
            assert(nq * blk_h <= nq * blk_h * blk_w * 3) by (nonlinear_arith)
                requires blk_w >= 1;
            assert(((qi * blk_h + by) * blk_w) <= nq * blk_h * blk_w * 3) by (nonlinear_arith)
                requires qi * blk_h + by < nq * blk_h, blk_w >= 1;
        }
        colors[((qi * blk_h + by) * blk_w + bx) * 3 + c]
    } else {
        0
    }
}

/// The sum of the map `m` (rows of `width` entries) over the 16 by 16 block `(bx, by)`.
pub open spec fn block_error_sum(m: Seq<u32>, width: int, bx: int, by: int) -> int {
    rect_sum(m, width, 16 * bx, 16 * by, 16, 16)
}

/// Entry `(qi * blk_h + by) * blk_w + bx` of `sums` is the sum of map `qi` over block `(bx, by)`.
pub open spec fn block_sum_entry(
    maps: Seq<Vec<u32>>,
    width: int,
    blk_h: int,
    blk_w: int,
    sums: Seq<u128>,
    qi: int,
    by: int,
    bx: int,
) -> bool {
    sums[(qi * blk_h + by) * blk_w + bx] == block_error_sum(maps[qi]@, width, bx, by)
}

/// Entries listed block by block, map by map, come in the order of their positions.
proof fn lemma_block_order(q: int, b: int, x: int, qi: int, by: int, bx: int, bh: int, bw: int)
    requires
        0 <= q,
        0 <= b < bh,
        0 <= x < bw,
        0 <= by < bh,
        0 <= bx < bw,
        q < qi || (q == qi && b < by) || (q == qi && b == by && x < bx),
    ensures
        0 <= (q * bh + b) * bw + x < (qi * bh + by) * bw + bx,
{
    assert(0 <= (q * bh + b) * bw + x) by (nonlinear_arith)
        requires 0 <= q, 0 <= b, 0 <= x, bw > 0, bh > 0;
    if q < qi {
        assert((q * bh + b) * bw + x < (qi * bh + by) * bw + bx) by (nonlinear_arith)
            requires q < qi, 0 <= b < bh, 0 <= x < bw, 0 <= by, 0 <= bx;
    } else if b < by {
        assert((q * bh + b) * bw + x < (qi * bh + by) * bw + bx) by (nonlinear_arith)
            requires q == qi, b < by, 0 <= x < bw, 0 <= bx;
    }
}

/// For every map of `maps` (each of a `width` by `height` image) and every whole 16 by 16 block,
/// row by row, the sum of the map over the block; entry `(qi * blk_h + by) * blk_w + bx` with
/// `blk_h = height / 16` and `blk_w = width / 16` (see `block_sum_entry`).
pub fn block_sums(maps: &Vec<Vec<u32>>, width: usize, height: usize) -> (sums: Vec<u128>)
    requires
        forall|i: int|
            0 <= i < maps@.len() ==> (#[trigger] maps@[i])@.len() == width * height && bounded_errors(
                maps@[i]@,
            ),
    ensures
        sums@.len() == maps@.len() * (height as int / 16) * (width as int / 16),
        forall|qi: int, by: int, bx: int|
            0 <= qi < maps@.len() && 0 <= by < height / 16 && 0 <= bx < width / 16
                ==> #[trigger] block_sum_entry(
                maps@,
                width as int,
                height as int / 16,
                width as int / 16,
                sums@,
                qi,
                by,
                bx,
            ),
{
    let bh: usize = height / 16;
    let bw: usize = width / 16;
    let nm: usize = maps.len();
    let mut sums: Vec<u128> = Vec::new();
    let mut qi: usize = 0;
    proof {
        assert(0 * bh * bw == 0) by (nonlinear_arith);
    }
    while qi < nm
        invariant
            nm == maps@.len(),
            bh == height / 16,
            bw == width / 16,
            forall|i: int|
                0 <= i < maps@.len() ==> (#[trigger] maps@[i])@.len() == width * height && bounded_errors(
                    maps@[i]@,
                ),
            qi <= nm,
            sums@.len() == qi * bh * bw,
            forall|q: int, b: int, x: int|
                0 <= q < qi && 0 <= b < bh && 0 <= x < bw ==> #[trigger] block_sum_entry(
                    maps@,
                    width as int,
                    bh as int,
                    bw as int,
                    sums@,
                    q,
                    b,
                    x,
                ),
        decreases nm - qi,
    {
        let mut by: usize = 0;
        while by < bh
            invariant
                nm == maps@.len(),
                bh == height / 16,
                bw == width / 16,
                forall|i: int|
                    0 <= i < maps@.len() ==> (#[trigger] maps@[i])@.len() == width * height
                        && bounded_errors(maps@[i]@),
                qi < nm,
                by <= bh,
                sums@.len() == (qi * bh + by) * bw,
                forall|q: int, b: int, x: int|
                    ((0 <= q < qi && 0 <= b < bh) || (q == qi && 0 <= b < by)) && 0 <= x < bw
                        ==> #[trigger] block_sum_entry(maps@, width as int, bh as int, bw as int, sums@, q, b, x),
            decreases bh - by,
        {
            let mut bx: usize = 0;
            while bx < bw
                invariant
                    nm == maps@.len(),
                    bh == height / 16,
                    bw == width / 16,
                    forall|i: int|
                        0 <= i < maps@.len() ==> (#[trigger] maps@[i])@.len() == width * height
                            && bounded_errors(maps@[i]@),
                    qi < nm,
                    by < bh,
                    bx <= bw,
                    sums@.len() == (qi * bh + by) * bw + bx,
                    forall|q: int, b: int, x: int|
                        (((0 <= q < qi && 0 <= b < bh) || (q == qi && 0 <= b < by)) && 0 <= x < bw) || (q
                            == qi && b == by && 0 <= x < bx) ==> #[trigger] block_sum_entry(
                            maps@,
                            width as int,
                            bh as int,
                            bw as int,
                            sums@,
                            q,
                            b,
                            x,
                        ),
                decreases bw - bx,
            {
                proof {
                    assert(16 * bx + 16 <= width) by (nonlinear_arith)
                        requires bx < bw, bw == width / 16;
                    assert(16 * by + 16 <= height) by (nonlinear_arith)
                        requires by < bh, bh == height / 16;
                }
                let s = sum_rect(&maps[qi], width, height, 16 * bx, 16 * by, 16, 16);
                let ghost before = sums@;
                sums.push(s);
                proof {
                    assert forall|q: int, b: int, x: int|
                        (((0 <= q < qi && 0 <= b < bh) || (q == qi && 0 <= b < by)) && 0 <= x < bw) || (q
                            == qi && b == by && 0 <= x < bx + 1) implies #[trigger] block_sum_entry(
                        maps@,
                        width as int,
                        bh as int,
                        bw as int,
                        sums@,
                        q,
                        b,
                        x,
                    ) by {
                        if q == qi && b == by && x == bx {
                            assert((q * bh + b) * bw + x == before.len());
                        } else {
                            lemma_block_order(q, b, x, qi as int, by as int, bx as int, bh as int, bw as int);
                            assert(block_sum_entry(maps@, width as int, bh as int, bw as int, before, q, b, x));
                        }
                    }
                }
                bx += 1;
            }
            proof {
                assert((qi * bh + by) * bw + bw == (qi * bh + by + 1) * bw) by (nonlinear_arith);
            }
            by += 1;
        }
        proof {
            assert((qi * bh + bh) * bw == (qi + 1) * bh * bw) by (nonlinear_arith);
        }
        qi += 1;
    }
    proof {
        assert(nm * bh * bw == maps@.len() * (height as int / 16) * (width as int / 16));
    }
    sums
}

/// The grid of quality tiles: `sp` by `sp` tiles of `blk_w` by `blk_h` blocks of 16 by 16
/// pixels each, tile `qi` filled block by block from `colors` (see `tile_color`).
pub fn render_tiles(colors: &Vec<u8>, blk_h: usize, blk_w: usize, nq: usize, sp: usize) -> (out: RgbImage)
    requires
        blk_h >= 1,
        blk_w >= 1,
        sp >= 1,
        colors@.len() == nq * blk_h * blk_w * 3,
        sp * blk_w * 16 <= u32::MAX,
        sp * blk_h * 16 <= u32::MAX,
        (sp * blk_w * 16) * (sp * blk_h * 16) * 3 <= usize::MAX,
    ensures
        out.wf(),
        out.width == sp * blk_w * 16,
        out.height == sp * blk_h * 16,
        forall|px: int, py: int, c: int|
            0 <= px < out.width && 0 <= py < out.height && 0 <= c < 3 ==> #[trigger] out.at(px, py, c)
                == tile_color(colors@, blk_h as int, blk_w as int, nq as int, sp as int, px, py, c),
{
    let gw: usize = sp * blk_w * 16;
    let gh: usize = sp * blk_h * 16;
    let mut data: Vec<u8> = Vec::with_capacity(gw * gh * 3);
    let mut py: usize = 0;
    while py < gh
        invariant
            blk_h >= 1,
            blk_w >= 1,
            sp >= 1,
            colors@.len() == nq * blk_h * blk_w * 3,
            gw == sp * blk_w * 16,
            gh == sp * blk_h * 16,
            gw * gh * 3 <= usize::MAX,
            sp * blk_w * 16 <= u32::MAX,
            sp * blk_h * 16 <= u32::MAX,
            py <= gh,
            data@.len() == (py * gw) * 3,
            forall|x2: int, y2: int, c: int|
                0 <= x2 < gw && 0 <= y2 < py && 0 <= c < 3 ==> #[trigger] data@[(y2 * gw + x2) * 3 + c]
                    == tile_color(colors@, blk_h as int, blk_w as int, nq as int, sp as int, x2, y2, c),
        decreases gh - py,
    {
        let mut px: usize = 0;
        while px < gw
            invariant
                blk_h >= 1,
                blk_w >= 1,
                sp >= 1,
                colors@.len() == nq * blk_h * blk_w * 3,
                gw == sp * blk_w * 16,
                gh == sp * blk_h * 16,
                gw * gh * 3 <= usize::MAX,
                sp * blk_w * 16 <= u32::MAX,
                sp * blk_h * 16 <= u32::MAX,
            sp * blk_w * 16 <= u32::MAX,
            sp * blk_h * 16 <= u32::MAX,
                py < gh,
                px <= gw,
                data@.len() == (py * gw + px) * 3,
                forall|x2: int, y2: int, c: int|
                    0 <= x2 < gw && 0 <= y2 < py && 0 <= c < 3 ==> #[trigger] data@[(y2 * gw + x2) * 3 + c]
                        == tile_color(colors@, blk_h as int, blk_w as int, nq as int, sp as int, x2, y2, c),
                forall|x2: int, c: int|
                    0 <= x2 < px && 0 <= c < 3 ==> #[trigger] data@[(py * gw + x2) * 3 + c]
                        == tile_color(colors@, blk_h as int, blk_w as int, nq as int, sp as int, x2, py as int, c),
            decreases gw - px,
        {
            let r: u8 = tile_color_exec(colors, blk_h, blk_w, nq, sp, px, py, 0);
            let g: u8 = tile_color_exec(colors, blk_h, blk_w, nq, sp, px, py, 1);
            let b: u8 = tile_color_exec(colors, blk_h, blk_w, nq, sp, px, py, 2);
            proof {
                assert((py * gw + px) * 3 + 3 == (py * gw + px + 1) * 3) by (nonlinear_arith);
            }
            data.push(r);
            data.push(g);
            data.push(b);
            proof {
                assert forall|x2: int, y2: int, c: int|
                    0 <= x2 < gw && 0 <= y2 < py && 0 <= c < 3 implies #[trigger] data@[(y2 * gw + x2) * 3 + c]
                        == tile_color(colors@, blk_h as int, blk_w as int, nq as int, sp as int, x2, y2, c) by {
                    assert((y2 * gw + x2) * 3 + c < (py * gw) * 3) by (nonlinear_arith)
                        requires y2 + 1 <= py, x2 < gw, c < 3;
                    assert((py * gw) * 3 <= (py * gw + px) * 3) by (nonlinear_arith)
                        requires px >= 0;
                }
                assert forall|x2: int, c: int|
                    0 <= x2 < px + 1 && 0 <= c < 3 implies #[trigger] data@[(py * gw + x2) * 3 + c]
                        == tile_color(colors@, blk_h as int, blk_w as int, nq as int, sp as int, x2, py as int, c) by {
                    if x2 < px {
                        assert((py * gw + x2) * 3 + c < (py * gw + px) * 3) by (nonlinear_arith)
                            requires x2 < px, c < 3;
                    }
                }
            }
            px += 1;
        }
        proof {
            assert((py * gw + gw) * 3 == ((py + 1) * gw) * 3) by (nonlinear_arith);
        }
        py += 1;
    }
    proof {
        assert((gh * gw) * 3 == gw * gh * 3) by (nonlinear_arith);
    }
    RgbImage { width: gw as u32, height: gh as u32, data }
}

/// JPEG Ghost after Sherloq (Farid's multi-quality JPEG ghosts).
pub struct SherloqGhostPlugin {
    qmin: i32,
    qmax: i32,
    qstep: i32,
    x_off: i32,
    y_off: i32,
    grayscale: bool,
}

impl SherloqGhostPlugin {
    /// The stored lowest quality.
    pub closed spec fn qmin_spec(&self) -> i32 {
        self.qmin
    }

    /// The stored highest quality.
    pub closed spec fn qmax_spec(&self) -> i32 {
        self.qmax
    }

    /// The stored quality step.
    pub closed spec fn qstep_spec(&self) -> i32 {
        self.qstep
    }

    /// The stored horizontal grid offset.
    pub closed spec fn x_off_spec(&self) -> i32 {
        self.x_off
    }

    /// The stored vertical grid offset.
    pub closed spec fn y_off_spec(&self) -> i32 {
        self.y_off
    }

    /// Whether every tile is rendered in gray.
    pub closed spec fn grayscale_spec(&self) -> bool {
        self.grayscale
    }

    /// The lowest quality used: the stored one clamped to `0..=100`.
    pub open spec fn eff_qmin(&self) -> int {
        clamp(self.qmin_spec() as int, 0, 100)
    }

    /// The highest quality used: the stored one clamped to `0..=100`, at least the lowest.
    pub open spec fn eff_qmax(&self) -> int {
        max(clamp(self.qmax_spec() as int, 0, 100), self.eff_qmin())
    }

    /// The step used: the stored one, at least 1.
    pub open spec fn eff_qstep(&self) -> int {
        max(self.qstep_spec() as int, 1)
    }

    /// Qualities 50 to 90 by 5, no offset, in gray.
    pub fn new() -> (p: Self)
        ensures
            p.qmin_spec() == 50,
            p.qmax_spec() == 90,
            p.qstep_spec() == 5,
            p.x_off_spec() == 0,
            p.y_off_spec() == 0,
            p.grayscale_spec(),
    {
        SherloqGhostPlugin { qmin: 50, qmax: 90, qstep: 5, x_off: 0, y_off: 0, grayscale: true }
    }

    /// The stored lowest quality.
    pub fn qmin(&self) -> (q: i32)
        ensures
            q == self.qmin_spec(),
    {
        self.qmin
    }

    /// The stored highest quality.
    pub fn qmax(&self) -> (q: i32)
        ensures
            q == self.qmax_spec(),
    {
        self.qmax
    }

    /// The stored quality step.
    pub fn qstep(&self) -> (q: i32)
        ensures
            q == self.qstep_spec(),
    {
        self.qstep
    }

    /// The stored horizontal grid offset.
    pub fn x_off(&self) -> (o: i32)
        ensures
            o == self.x_off_spec(),
    {
        self.x_off
    }

    /// The stored vertical grid offset.
    pub fn y_off(&self) -> (o: i32)
        ensures
            o == self.y_off_spec(),
    {
        self.y_off
    }

    /// Whether every tile is rendered in gray.
    pub fn grayscale(&self) -> (g: bool)
        ensures
            g == self.grayscale_spec(),
    {
        self.grayscale
    }

    /// Stores the lowest quality; the other settings stay.
    pub fn set_qmin(&mut self, q: i32)
        ensures
            final(self).qmin_spec() == q,
            final(self).qmax_spec() == old(self).qmax_spec(),
            final(self).qstep_spec() == old(self).qstep_spec(),
            final(self).x_off_spec() == old(self).x_off_spec(),
            final(self).y_off_spec() == old(self).y_off_spec(),
            final(self).grayscale_spec() == old(self).grayscale_spec(),
    {
        self.qmin = q;
    }

    /// Stores the highest quality; the other settings stay.
    pub fn set_qmax(&mut self, q: i32)
        ensures
            final(self).qmax_spec() == q,
            final(self).qmin_spec() == old(self).qmin_spec(),
            final(self).qstep_spec() == old(self).qstep_spec(),
            final(self).x_off_spec() == old(self).x_off_spec(),
            final(self).y_off_spec() == old(self).y_off_spec(),
            final(self).grayscale_spec() == old(self).grayscale_spec(),
    {
        self.qmax = q;
    }

    /// Stores the quality step, raised to 1 where smaller; the other settings stay.
    pub fn set_qstep(&mut self, q: i32)
        ensures
            final(self).qstep_spec() == max(q as int, 1),
            final(self).qmin_spec() == old(self).qmin_spec(),
            final(self).qmax_spec() == old(self).qmax_spec(),
            final(self).x_off_spec() == old(self).x_off_spec(),
            final(self).y_off_spec() == old(self).y_off_spec(),
            final(self).grayscale_spec() == old(self).grayscale_spec(),
    {
        self.qstep = if q < 1 { 1 } else { q };
    }

    /// Stores the horizontal grid offset; the other settings stay.
    pub fn set_x_off(&mut self, o: i32)
        ensures
            final(self).x_off_spec() == o,
            final(self).qmin_spec() == old(self).qmin_spec(),
            final(self).qmax_spec() == old(self).qmax_spec(),
            final(self).qstep_spec() == old(self).qstep_spec(),
            final(self).y_off_spec() == old(self).y_off_spec(),
            final(self).grayscale_spec() == old(self).grayscale_spec(),
    {
        self.x_off = o;
    }

    /// Stores the vertical grid offset; the other settings stay.
    pub fn set_y_off(&mut self, o: i32)
        ensures
            final(self).y_off_spec() == o,
            final(self).qmin_spec() == old(self).qmin_spec(),
            final(self).qmax_spec() == old(self).qmax_spec(),
            final(self).qstep_spec() == old(self).qstep_spec(),
            final(self).x_off_spec() == old(self).x_off_spec(),
            final(self).grayscale_spec() == old(self).grayscale_spec(),
    {
        self.y_off = o;
    }

    /// Chooses gray or tinted tiles; the other settings stay.
    pub fn set_grayscale(&mut self, g: bool)
        ensures
            final(self).grayscale_spec() == g,
            final(self).qmin_spec() == old(self).qmin_spec(),
            final(self).qmax_spec() == old(self).qmax_spec(),
            final(self).qstep_spec() == old(self).qstep_spec(),
            final(self).x_off_spec() == old(self).x_off_spec(),
            final(self).y_off_spec() == old(self).y_off_spec(),
    {
        self.grayscale = g;
    }

    /// The number of whole 16 by 16 blocks down and across a `width` by `height` image, or
    /// `None` where there is not one whole block: the analysis then has nothing to show.
    pub fn block_grid(width: u32, height: u32) -> (r: Option<(usize, usize)>)
        ensures
            r is None <==> (width < 16 || height < 16),
            r matches Some(g) ==> g.0 == height / 16 && g.1 == width / 16 && g.0 >= 1 && g.1 >= 1,
    {
        let blk_h: usize = (height / AVG_BLOCK) as usize;
        let blk_w: usize = (width / AVG_BLOCK) as usize;
        if blk_h == 0 || blk_w == 0 {
            None
        } else {
            Some((blk_h, blk_w))
        }
    }

    /// The qualities tried: from the lowest to the highest used, by the step used.
    pub fn qualities(&self) -> (qs: Vec<u8>)
        ensures
            qs@ == quality_steps(self.eff_qmin(), self.eff_qmax(), self.eff_qstep()),
            qs@.len() >= 1,
    {
        let qmin: i32 = if self.qmin < 0 { 0 } else if self.qmin > 100 { 100 } else { self.qmin };
        let qmax0: i32 = if self.qmax < 0 { 0 } else if self.qmax > 100 { 100 } else { self.qmax };
        let qmax: i32 = if qmax0 < qmin { qmin } else { qmax0 };
        let qstep: i32 = if self.qstep < 1 { 1 } else { self.qstep };
        let ghost spec_qs = quality_steps(qmin as int, qmax as int, qstep as int);
        let mut qs: Vec<u8> = Vec::new();
        let mut q: i64 = qmin as i64;
        proof {
            assert((qmax - qmin) / (qstep as int) >= 0) by (nonlinear_arith)
                requires qmax >= qmin, qstep >= 1;
        }
        while q <= qmax as i64
            invariant
                0 <= qmin <= qmax <= 100,
                qstep >= 1,
                spec_qs == quality_steps(qmin as int, qmax as int, qstep as int),
                qmin <= q,
                q == qmin + qs@.len() * qstep,
                qs@.len() <= spec_qs.len(),
                q <= qmax ==> qs@.len() < spec_qs.len(),
                q > qmax ==> qs@.len() == spec_qs.len(),
                forall|i: int| 0 <= i < qs@.len() ==> qs@[i] == spec_qs[i],
            decreases qmax + qstep - q,
        {
            let ghost k = qs@.len() as int;
            qs.push(q as u8);
            proof {
                assert((k + 1) * qstep == k * qstep + qstep) by (nonlinear_arith);
                let nq = (qmax - qmin) / (qstep as int) + 1;
                assert(k + 1 <= nq);
                if q + qstep <= qmax {
                    assert(k + 1 < nq) by (nonlinear_arith)
                        requires qmin + (k + 1) * qstep <= qmax, qstep >= 1, nq == (qmax - qmin) / (qstep as int) + 1;
                } else {
                    assert(k + 1 >= nq) by (nonlinear_arith)
                        requires qmin + (k + 1) * qstep > qmax, qstep >= 1, nq == (qmax - qmin) / (qstep as int) + 1;
                }
            }
            q = q + qstep as i64;
        }
        proof {
            assert(qs@ =~= spec_qs);
        }
        qs
    }

    /// The image shifted by the grid offsets (each clamped to `0..=7`).
    pub fn rolled(&self, img: &RgbImage) -> (r: RgbImage)
        requires
            img.wf(),
            img.width > 0,
            img.height > 0,
        ensures
            r.wf(),
            r.same_size(img),
            forall|x: int, y: int, c: int|
                0 <= x < img.width && 0 <= y < img.height && 0 <= c < 3 ==> #[trigger] r.at(x, y, c) == img.at(
                    rolled_source(img.width as int, clamp(self.x_off_spec() as int, 0, 7), x),
                    rolled_source(img.height as int, clamp(self.y_off_spec() as int, 0, 7), y),
                    c,
                ),
    {
        let xo: u32 = if self.x_off < 0 { 0 } else if self.x_off > 7 { 7 } else { self.x_off as u32 };
        let yo: u32 = if self.y_off < 0 { 0 } else if self.y_off > 7 { 7 } else { self.y_off as u32 };
        roll_image(img, xo, yo)
    }

    /// For each quality of `qualities`, the squared-error map of `rolled` against its
    /// re-compression at that quality; `None` where any re-compression fails. With no
    /// qualities there is nothing to re-compress, and the (empty) list of maps is returned.
    pub fn error_maps(rolled: &RgbImage, qualities: &Vec<u8>) -> (r: Option<Vec<Vec<u32>>>)
        requires
            rolled.wf(),
        ensures
            (exists|i: int|
                0 <= i < qualities@.len() && jpeg_encoder_rgb_output(
                    rolled.data@,
                    rolled.width as u16,
                    rolled.height as u16,
                    #[trigger] qualities@[i],
                ) is None) ==> r is None,
            qualities@.len() == 0 ==> r is Some,
            r matches Some(maps) ==> maps@.len() == qualities@.len() && forall|i: int|
                0 <= i < maps@.len() ==> (#[trigger] maps@[i])@.len() == rolled.width * rolled.height
                    && bounded_errors(maps@[i]@) && exists|c: RgbImage|
                    c.wf() && c.same_size(rolled) && forall|p: int|
                        0 <= p < maps@[i]@.len() ==> maps@[i]@[p] == pixel_sq_error(
                            rolled.data@,
                            c.data@,
                            p,
                        ),
    {
        let mut maps: Vec<Vec<u32>> = Vec::new();
        let mut i: usize = 0;
        while i < qualities.len()
            invariant
                rolled.wf(),
                i <= qualities@.len(),
                maps@.len() == i,
                forall|j: int|
                    0 <= j < i ==> jpeg_encoder_rgb_output(
                        rolled.data@,
                        rolled.width as u16,
                        rolled.height as u16,
                        #[trigger] qualities@[j],
                    ) is Some,
                forall|j: int|
                    0 <= j < i ==> (#[trigger] maps@[j])@.len() == rolled.width * rolled.height
                        && bounded_errors(maps@[j]@) && exists|c: RgbImage|
                        c.wf() && c.same_size(rolled) && forall|p: int|
                            0 <= p < maps@[j]@.len() ==> maps@[j]@[p] == pixel_sq_error(
                                rolled.data@,
                                c.data@,
                                p,
                            ),
            decreases qualities@.len() - i,
        {
            let c = match recompress(rolled, qualities[i]) {
                Some(c) => c,
                None => return None,
            };
            let err = squared_error_map(rolled, &c);
            maps.push(err);
            i += 1;
        }
        Some(maps)
    }

    /// The analysis name shown to users.
    pub fn name(&self) -> (s: &'static str)
        ensures
            s@ == "Sherloq JPEG Ghost"@,
    {
        "Sherloq JPEG Ghost"
    }

    /// What the analysis shows.
    pub fn description(&self) -> (s: &'static str)
        ensures
            s@ == "JPEG Ghost detection based on Sherloq (github.com/GuidoBartoli/sherloq) by GuidoBartoli, implementing the algorithm from 'Exposing Digital Forgeries from JPEG Ghosts' by Hany Farid. The image is re-compressed at multiple quality levels (Qmin to Qmax by Qstep) and the per-pixel mean squared error across RGB channels is computed at each quality. A 16x16 block averaging removes JPEG lattice noise, and each block position is normalized across quality levels to reveal the quality that produces minimal error. X/Y Offset parameters (0-7) shift the JPEG grid alignment to compensate for 8x8 block lattice misalignment. The output is a grid of block-averaged error maps; darker blocks at a given quality indicate the original compression quality of that region."@,
    {
        "JPEG Ghost detection based on Sherloq (github.com/GuidoBartoli/sherloq) by GuidoBartoli, implementing the algorithm from 'Exposing Digital Forgeries from JPEG Ghosts' by Hany Farid. The image is re-compressed at multiple quality levels (Qmin to Qmax by Qstep) and the per-pixel mean squared error across RGB channels is computed at each quality. A 16x16 block averaging removes JPEG lattice noise, and each block position is normalized across quality levels to reveal the quality that produces minimal error. X/Y Offset parameters (0-7) shift the JPEG grid alignment to compensate for 8x8 block lattice misalignment. The output is a grid of block-averaged error maps; darker blocks at a given quality indicate the original compression quality of that region."
    }

    /// Where the method comes from.
    pub fn reference(&self) -> (s: &'static str)
        ensures
            s@ == "https://github.com/GuidoBartoli/sherloq"@,
    {
        "https://github.com/GuidoBartoli/sherloq"
    }
}

/// The constructor that the plugin host calls.
pub fn create_sherloq_ghost_plugin() -> (p: SherloqGhostPlugin)
    ensures
        p.qmin_spec() == 50,
        p.qmax_spec() == 90,
        p.qstep_spec() == 5,
        p.x_off_spec() == 0,
        p.y_off_spec() == 0,
        p.grayscale_spec(),
{
    SherloqGhostPlugin::new()
}

} // verus!
