//! Integer facts and small integer routines shared by the analyses.
use vstd::prelude::*;

verus! {

/// Products of non-negative integers grow with their factors.
pub proof fn lemma_mul_le(a: int, b: int, c: int, d: int)
    requires
        0 <= a <= c,
        0 <= b <= d,
    ensures
        a * b <= c * d,
{
    assert(a * b <= c * d) by (nonlinear_arith)
        requires
            0 <= a <= c,
            0 <= b <= d,
    ;
}

/// The absolute difference of two integers.
pub open spec fn abs_diff(a: int, b: int) -> int {
    if a >= b { a - b } else { b - a }
}

/// The smaller of two integers.
pub open spec fn min(a: int, b: int) -> int {
    if a <= b { a } else { b }
}

/// The larger of two integers.
pub open spec fn max(a: int, b: int) -> int {
    if a >= b { a } else { b }
}

/// `v` limited to the range `lo..=hi`.
pub open spec fn clamp(v: int, lo: int, hi: int) -> int {
    if v < lo { lo } else if v > hi { hi } else { v }
}

/// `a * (255 - t) + b * t`, the blend of `a` and `b` at opacity `t / 255`, divided by 255 and
/// rounded to the nearest integer. The quotient never lies half way between two integers,
/// since 255 is odd, so rounding half up is rounding to the nearest.
pub open spec fn blend255(a: int, b: int, t: int) -> int {
    (a * (255 - t) + b * t + 127) / 255
}

/// `|a - b|` on bytes.
pub fn abs_diff_u8(a: u8, b: u8) -> (d: u8)
    ensures
        d == abs_diff(a as int, b as int),
{
    if a >= b { a - b } else { b - a }
}

/// The blend of two bytes stays a byte.
pub proof fn lemma_blend255_bounds(a: int, b: int, t: int)
    requires
        0 <= a <= 255,
        0 <= b <= 255,
        0 <= t <= 255,
    ensures
        0 <= blend255(a, b, t) <= 255,
        a * (255 - t) + b * t <= 255 * 255,
        0 <= a * (255 - t),
        0 <= b * t,
{
    assert(a * (255 - t) <= 255 * (255 - t)) by (nonlinear_arith)
        requires 0 <= a <= 255, 0 <= t <= 255;
    assert(b * t <= 255 * t) by (nonlinear_arith)
        requires 0 <= b <= 255, 0 <= t <= 255;
    assert(0 <= a * (255 - t)) by (nonlinear_arith)
        requires 0 <= a <= 255, 0 <= t <= 255;
    assert(0 <= b * t) by (nonlinear_arith)
        requires 0 <= b <= 255, 0 <= t <= 255;
}

/// `blend255(a, b, t)` on bytes.
pub fn blend255_u8(a: u8, b: u8, t: u8) -> (r: u8)
    ensures
        r == blend255(a as int, b as int, t as int),
{
    proof {
        lemma_blend255_bounds(a as int, b as int, t as int);
    }
    let num: u32 = (a as u32) * (255 - t as u32) + (b as u32) * (t as u32) + 127;
    (num / 255) as u8
}

/// `min(v * k, 255)` on bytes.
pub fn scale_sat_u8(v: u8, k: u32) -> (r: u8)
    ensures
        r == min(v * k, 255),
{
    if k == 0 {
        return 0;
    }
    if v as u32 > 255 / k {
        proof {
            assert(v * k >= 255) by (nonlinear_arith)
                requires v > 255u32 / k, k > 0;
        }
        255
    } else {
        proof {
            assert(v * k <= 255) by (nonlinear_arith)
                requires v <= 255u32 / k, k > 0;
        }
        ((v as u32) * k) as u8
    }
}

/// `r` is the integer square root of `n`, capped at `cap`: the largest `r <= cap` with
/// `r * r <= n`.
pub open spec fn is_capped_sqrt(n: int, cap: int, r: int) -> bool {
    &&& 0 <= r <= cap
    &&& r * r <= n
    &&& (r == cap || (r + 1) * (r + 1) > n)
}

/// The integer square root of `n`, capped at 255.
pub fn sqrt_capped_255(n: u64) -> (r: u64)
    ensures
        is_capped_sqrt(n as int, 255, r as int),
{
    let mut lo: u64 = 0;
    let mut hi: u64 = 256;
    while hi - lo > 1
        invariant
            lo < hi <= 256,
            lo * lo <= n,
            hi == 256 || hi * hi > n,
        decreases hi - lo,
    {
        let mid: u64 = lo + (hi - lo) / 2;
        proof {
            assert(mid * mid <= 256 * 256) by (nonlinear_arith)
                requires mid <= 256;
        }
        if mid * mid <= n {
            lo = mid;
        } else {
            hi = mid;
        }
    }
    lo
}

} // verus!
