//! Signed 16.16 fixed-point scalar arithmetic.
//!
//! A fixed-point value stores `v * SCALE` in an `i64`, where `SCALE = 2^16`.
//! Multiplication and division are defined exactly: products are formed in
//! `i128`, divided with truncation toward zero, and saturated into
//! `[-SAT_LIM, SAT_LIM]`, so every operation is total and its result is
//! pinned by a spec function.

use vstd::prelude::*;
use vstd::arithmetic::div_mod::{lemma_div_is_ordered, lemma_div_by_multiple, lemma_div_is_ordered_by_denominator, lemma_div_pos_is_pos, lemma_div_of0, lemma_div_basics};

verus! {

/// One whole unit in 16.16 fixed point.
pub const SCALE: i64 = 65536;

/// Half a unit; the screen-mapping rounding offset.
pub const HALF: i64 = 32768;

/// Saturation bound for general fixed-point values (2^40).
pub const SAT_LIM: i64 = 1099511627776;

/// Bound on screen/model coordinates, depths and texture coordinates
/// entering the rasterizer (2^29); keeps all barycentric products inside
/// `i128`.
pub const COORD_LIM: i64 = 536870912;

/// Absolute value over the mathematical integers.
pub open spec fn abs_int(a: int) -> int {
    if a >= 0 {
        a
    } else {
        -a
    }
}

/// Division truncating toward zero, the semantics of Rust's `/` on signed
/// integers (spec-mode `/` alone is Euclidean).
pub open spec fn div_trunc(a: int, b: int) -> int {
    let q = abs_int(a) / abs_int(b);
    if (a >= 0) == (b >= 0) {
        q
    } else {
        -q
    }
}

/// Saturation of `x` into `[-lim, lim]`.
pub open spec fn sat_int(x: int, lim: int) -> int {
    if x > lim {
        lim
    } else if x < -lim {
        -lim
    } else {
        x
    }
}

/// Clamp of `x` into `[lo, hi]`.
pub open spec fn clamp_int(x: int, lo: int, hi: int) -> int {
    if x < lo {
        lo
    } else if x > hi {
        hi
    } else {
        x
    }
}

/// Fixed-point product: `a * b / SCALE`, truncated, saturated.
pub open spec fn fx_mul_spec(a: int, b: int) -> int {
    sat_int(div_trunc(a * b, SCALE as int), SAT_LIM as int)
}

/// Fixed-point quotient: `a * SCALE / b`, truncated, saturated; division by
/// zero saturates in the direction of the dividend's sign.
pub open spec fn fx_div_spec(a: int, b: int) -> int {
    if b == 0 {
        if a > 0 {
            SAT_LIM as int
        } else if a < 0 {
            -(SAT_LIM as int)
        } else {
            0
        }
    } else {
        sat_int(div_trunc(a * SCALE, b), SAT_LIM as int)
    }
}

/// `div_trunc` written as the sign-case expression that `checked_div`'s
/// specification uses.
proof fn lemma_div_trunc_cases(x: int, d: int)
    requires
        d != 0,
    ensures
        div_trunc(x, d) == (if x == 0 {
            0int
        } else if x > 0 && d > 0 {
            x / d
        } else if x < 0 && d < 0 {
            (x * -1) / (d * -1)
        } else if x < 0 {
            ((x * -1) / d) * -1
        } else {
            (x / (d * -1)) * -1
        }),
{
    if x == 0 {
        lemma_div_of0(abs_int(d));
    }
}

/// A truncating quotient of representable operands is representable, except
/// for the one overflowing pair.
proof fn lemma_div_trunc_fits_i128(x: int, d: int)
    requires
        i128::MIN <= x <= i128::MAX,
        i128::MIN <= d <= i128::MAX,
        d != 0,
        !(x == i128::MIN && d == -1),
    ensures
        i128::MIN <= div_trunc(x, d) <= i128::MAX,
{
    let aa = abs_int(x);
    let ab = abs_int(d);
    lemma_div_trunc_shrinks(x, d);
    if x == i128::MIN {
        if d == 1 {
            lemma_div_basics(aa);
        } else {
            lemma_div_is_ordered_by_denominator(aa, 2, ab);
        }
    }
}

/// Truncating division on `i128`, matching `div_trunc`.
pub fn div_i128(a: i128, b: i128) -> (r: i128)
    requires
        b != 0,
        !(a == i128::MIN && b == -1),
    ensures
        r == div_trunc(a as int, b as int),
{
    proof {
        lemma_div_trunc_cases(a as int, b as int);
        lemma_div_trunc_fits_i128(a as int, b as int);
    }
    let q = a.checked_div(b);
    q.unwrap()
}

/// Saturation of an `i128` into `[-lim, lim]` for a positive `i64` bound.
pub fn sat_i128(x: i128, lim: i64) -> (r: i64)
    requires
        lim > 0,
    ensures
        r == sat_int(x as int, lim as int),
{
    if x > lim as i128 {
        lim
    } else if x < -(lim as i128) {
        -lim
    } else {
        x as i64
    }
}

/// Fixed-point multiplication.
pub fn fx_mul(a: i64, b: i64) -> (r: i64)
    ensures
        r == fx_mul_spec(a as int, b as int),
{
    proof {
        lemma_mul_abs_bound(a as int, b as int, 0x8000000000000000, 0x8000000000000000);
        assert(0x8000000000000000int * 0x8000000000000000int < i128::MAX) by (nonlinear_arith);
    }
    let p: i128 = (a as i128) * (b as i128);
    let q = div_i128(p, SCALE as i128);
    sat_i128(q, SAT_LIM)
}

/// Fixed-point division, total: a zero divisor saturates.
pub fn fx_div(a: i64, b: i64) -> (r: i64)
    ensures
        r == fx_div_spec(a as int, b as int),
{
    if b == 0 {
        if a > 0 {
            SAT_LIM
        } else if a < 0 {
            -SAT_LIM
        } else {
            0
        }
    } else {
        proof {
            lemma_mul_abs_bound(a as int, SCALE as int, 0x8000000000000000, 65536);
            assert(0x8000000000000000int * 65536 < i128::MAX) by (nonlinear_arith);
        }
        let p: i128 = (a as i128) * (SCALE as i128);
        let q = div_i128(p, b as i128);
        sat_i128(q, SAT_LIM)
    }
}

/// Saturating addition on fixed-point values.
pub open spec fn fx_add_spec(a: int, b: int) -> int {
    sat_int(a + b, SAT_LIM as int)
}

/// Saturating subtraction on fixed-point values.
pub open spec fn fx_sub_spec(a: int, b: int) -> int {
    sat_int(a - b, SAT_LIM as int)
}

pub fn fx_add(a: i64, b: i64) -> (r: i64)
    ensures
        r == fx_add_spec(a as int, b as int),
{
    sat_i128(a as i128 + b as i128, SAT_LIM)
}

pub fn fx_sub(a: i64, b: i64) -> (r: i64)
    ensures
        r == fx_sub_spec(a as int, b as int),
{
    sat_i128(a as i128 - b as i128, SAT_LIM)
}

/// The floor of the square root of a nonnegative integer, as a recursive
/// definition; negative arguments map to zero.
pub open spec fn sqrt_int(n: int) -> int
    decreases
            (if n >= 0 {
                n
            } else {
                0
            }),
{
    if n <= 0 {
        0
    } else {
        let r = sqrt_int(n - 1);
        if (r + 1) * (r + 1) <= n {
            r + 1
        } else {
            r
        }
    }
}

/// `sqrt_int` is the floor of the square root.
pub proof fn lemma_sqrt_int_bounds(n: int)
    requires
        n >= 0,
    ensures
        sqrt_int(n) >= 0,
        sqrt_int(n) * sqrt_int(n) <= n,
        (sqrt_int(n) + 1) * (sqrt_int(n) + 1) > n,
    decreases n,
{
    if n > 0 {
        lemma_sqrt_int_bounds(n - 1);
        let r = sqrt_int(n - 1);
        if (r + 1) * (r + 1) <= n {
            assert((r + 2) * (r + 2) > n) by (nonlinear_arith)
                requires
                    r >= 0,
                    (r + 1) * (r + 1) > n - 1,
            ;
        }
    }
}

/// Any value with the floor-square-root property equals `sqrt_int`.
pub proof fn lemma_sqrt_int_unique(n: int, r: int)
    requires
        n >= 0,
        r >= 0,
        r * r <= n,
        (r + 1) * (r + 1) > n,
    ensures
        r == sqrt_int(n),
{
    lemma_sqrt_int_bounds(n);
    let s = sqrt_int(n);
    if r < s {
        assert((r + 1) * (r + 1) <= s * s) by (nonlinear_arith)
            requires
                0 <= r,
                r + 1 <= s,
        ;
    }
    if s < r {
        assert((s + 1) * (s + 1) <= r * r) by (nonlinear_arith)
            requires
                0 <= s,
                s + 1 <= r,
        ;
    }
}

/// Absolute value on `i64`, saturating the one unrepresentable case.
pub fn fx_abs(a: i64) -> (r: i64)
    ensures
        r == (if a == i64::MIN {
            i64::MAX as int
        } else {
            abs_int(a as int)
        }),
{
    if a == i64::MIN {
        i64::MAX
    } else if a < 0 {
        -a
    } else {
        a
    }
}

/// The magnitude of a truncating quotient never exceeds `m` when the
/// dividend's magnitude is at most `m` times the divisor's.
pub proof fn lemma_div_trunc_bound(a: int, b: int, m: int)
    requires
        b != 0,
        m >= 0,
        abs_int(a) <= m * abs_int(b),
    ensures
        abs_int(div_trunc(a, b)) <= m,
{
    let aa = abs_int(a);
    let ab = abs_int(b);
    lemma_div_is_ordered(aa, m * ab, ab);
    lemma_div_by_multiple(m, ab);
}

/// Truncating division by a positive divisor keeps the dividend's sign side.
pub proof fn lemma_div_trunc_nonneg(a: int, b: int)
    requires
        a >= 0,
        b > 0,
    ensures
        div_trunc(a, b) >= 0,
        div_trunc(a, b) == a / b,
{
    lemma_div_pos_is_pos(a, b);
}

/// A product of values bounded in magnitude is bounded by the product of the
/// bounds.
pub proof fn lemma_mul_abs_bound(a: int, b: int, ba: int, bb: int)
    requires
        -ba <= a <= ba,
        -bb <= b <= bb,
    ensures
        -(ba * bb) <= a * b <= ba * bb,
{
    assert(-(ba * bb) <= a * b <= ba * bb) by (nonlinear_arith)
        requires
            -ba <= a <= ba,
            -bb <= b <= bb,
    ;
}

/// Enlarging the divisor's magnitude cannot enlarge a truncating quotient.
pub proof fn lemma_div_trunc_shrinks(a: int, b: int)
    requires
        abs_int(b) >= 1,
    ensures
        abs_int(div_trunc(a, b)) <= abs_int(a),
{
    let aa = abs_int(a);
    let ab = abs_int(b);
    lemma_div_is_ordered_by_denominator(aa, 1, ab);
    assert(aa / 1 == aa);
}

/// Minimum over the mathematical integers.
pub open spec fn min_int(a: int, b: int) -> int {
    if a < b {
        a
    } else {
        b
    }
}

/// Maximum over the mathematical integers.
pub open spec fn max_int(a: int, b: int) -> int {
    if a > b {
        a
    } else {
        b
    }
}

/// The smaller of two `i64` values.
pub fn min_i64(a: i64, b: i64) -> (r: i64)
    ensures
        r == min_int(a as int, b as int),
{
    if a < b {
        a
    } else {
        b
    }
}

/// The larger of two `i64` values.
pub fn max_i64(a: i64, b: i64) -> (r: i64)
    ensures
        r == max_int(a as int, b as int),
{
    if a > b {
        a
    } else {
        b
    }
}

/// Row-major grid index: the index of column `x` in row `y` lies within the
/// buffer and decomposes back into `x` and `y`.
pub proof fn lemma_grid_index(x: int, y: int, w: int, h: int)
    requires
        0 <= x < w,
        0 <= y < h,
    ensures
        0 <= x + y * w < w * h,
        (x + y * w) % w == x,
        (x + y * w) / w == y,
{
    vstd::arithmetic::div_mod::lemma_fundamental_div_mod_converse(x + y * w, w, y, x);
    assert(x + y * w < w * h) by (nonlinear_arith)
        requires
            0 <= x < w,
            0 <= y < h,
    ;
}

/// Integer square root over `i128`, by bisection.
pub fn isqrt_i128(x: i128) -> (r: i128)
    requires
        0 <= x,
    ensures
        0 <= r,
        r * r <= x,
        (r + 1) * (r + 1) > x,
        r == sqrt_int(x as int),
{
    let mut lo: i128 = 0;
    let mut hi: i128 = 13043817825332782212;  // floor(sqrt(i128::MAX))
    proof {
        assert((13043817825332782212int + 1) * (13043817825332782212int + 1)
            > i128::MAX as int) by (nonlinear_arith);
    }
    if x < hi {
        hi = x;
        proof {
            assert((x as int + 1) * (x as int + 1) > x as int) by (nonlinear_arith)
                requires
                    x >= 0,
            ;
        }
    }
    while lo < hi
        invariant
            0 <= lo <= hi,
            lo * lo <= x,
            (hi + 1) * (hi + 1) > x,
            hi <= 13043817825332782212,
        decreases hi - lo,
    {
        let mid: i128 = lo + (hi - lo + 1) / 2;
        proof {
            assert(lo < mid <= hi);
            lemma_mul_abs_bound(mid as int, mid as int, hi as int, hi as int);
            lemma_mul_abs_bound(hi as int, hi as int, 13043817825332782212int, 13043817825332782212int);
            assert(13043817825332782212int * 13043817825332782212int <= i128::MAX as int)
                by (nonlinear_arith);
        }
        if mid * mid <= x {
            lo = mid;
        } else {
            hi = mid - 1;
            proof {
                assert((hi as int + 1) * (hi as int + 1) > x);
            }
        }
    }
    proof {
        lemma_sqrt_int_unique(x as int, lo as int);
    }
    lo
}

} // verus!
