//! Fixed-point sine and cosine.
//!
//! Angles are in radians on the 16.16 grid.  The argument is reduced modulo
//! two pi into `[-pi, pi]` and the result is a truncated Taylor series
//! evaluated exactly in integer arithmetic; the spec functions mirror the
//! computation step by step, so the result is pinned down to the last bit.

use vstd::prelude::*;
use crate::fixed::{SCALE, abs_int, div_trunc, div_i128, lemma_div_trunc_bound, lemma_mul_abs_bound};

verus! {

/// Two pi on the 16.16 grid.
pub const TWO_PI_FX: i64 = 411775;

/// Pi on the 16.16 grid.
pub const PI_FX: i64 = 205887;

/// The argument reduced into `[-PI_FX - 1, PI_FX + 1]` by subtracting whole
/// turns (truncating), then shifting by one turn if still outside.
pub open spec fn reduce_angle(x: int) -> int {
    let r = x - div_trunc(x, TWO_PI_FX as int) * (TWO_PI_FX as int);
    if r > PI_FX {
        r - TWO_PI_FX
    } else if r < -(PI_FX as int) {
        r + TWO_PI_FX
    } else {
        r
    }
}

/// The truncated sine series at a reduced argument.
pub open spec fn sin_series(r: int) -> int {
    let s = SCALE as int;
    let r2 = div_trunc(r * r, s);
    let r3 = div_trunc(r2 * r, s);
    let r5 = div_trunc(r3 * r2, s);
    let r7 = div_trunc(r5 * r2, s);
    let r9 = div_trunc(r7 * r2, s);
    r - div_trunc(r3, 6) + div_trunc(r5, 120) - div_trunc(r7, 5040) + div_trunc(r9, 362880)
}

/// The truncated cosine series at a reduced argument.
pub open spec fn cos_series(r: int) -> int {
    let s = SCALE as int;
    let r2 = div_trunc(r * r, s);
    let r4 = div_trunc(r2 * r2, s);
    let r6 = div_trunc(r4 * r2, s);
    let r8 = div_trunc(r6 * r2, s);
    s - div_trunc(r2, 2) + div_trunc(r4, 24) - div_trunc(r6, 720) + div_trunc(r8, 40320)
}

/// What `sin_fx` returns.
pub open spec fn sin_fx_spec(x: int) -> int {
    sin_series(reduce_angle(x))
}

/// What `cos_fx` returns.
pub open spec fn cos_fx_spec(x: int) -> int {
    cos_series(reduce_angle(x))
}

/// Subtracting `div_trunc(x, d) * d` leaves a remainder smaller than `d` in
/// magnitude, on the dividend's side of zero.
proof fn lemma_div_trunc_rem(x: int, d: int)
    requires
        d > 0,
    ensures
        -d < x - div_trunc(x, d) * d < d,
{
    if x >= 0 {
        vstd::arithmetic::div_mod::lemma_fundamental_div_mod(x, d);
        vstd::arithmetic::div_mod::lemma_mod_division_less_than_divisor(x, d);
        assert(d * (x / d) == (x / d) * d) by (nonlinear_arith);
    } else {
        vstd::arithmetic::div_mod::lemma_fundamental_div_mod(-x, d);
        vstd::arithmetic::div_mod::lemma_mod_division_less_than_divisor(-x, d);
        let q = (-x) / d;
        assert(d * q == q * d && (-q) * d == -(q * d)) by (nonlinear_arith);
    }
}

/// Reduction leaves the angle within one pi of zero (plus one grid step).
proof fn lemma_reduce_angle_range(x: int)
    ensures
        abs_int(reduce_angle(x)) <= PI_FX + 1,
{
    lemma_div_trunc_rem(x, TWO_PI_FX as int);
}

/// Reduces the angle into `[-pi, pi]` on the grid.
fn reduce(x: i64) -> (r: i64)
    ensures
        r == reduce_angle(x as int),
        abs_int(r as int) <= PI_FX + 1,
{
    proof {
        lemma_reduce_angle_range(x as int);
        lemma_div_trunc_rem(x as int, TWO_PI_FX as int);
        lemma_div_trunc_bound(x as int, TWO_PI_FX as int, 0x8000000000000000);
        assert(abs_int(x as int) <= 0x8000000000000000 * (TWO_PI_FX as int)) by (nonlinear_arith)
            requires
                abs_int(x as int) <= 0x8000000000000000,
        ;
        lemma_mul_abs_bound(
            div_trunc(x as int, TWO_PI_FX as int),
            TWO_PI_FX as int,
            0x8000000000000000,
            411775,
        );
    }
    let q = div_i128(x as i128, TWO_PI_FX as i128);
    let r = (x as i128) - q * (TWO_PI_FX as i128);
    let r = r as i64;
    if r > PI_FX {
        r - TWO_PI_FX
    } else if r < -PI_FX {
        r + TWO_PI_FX
    } else {
        r
    }
}

/// Magnitude bounds for every intermediate of the two series at a reduced
/// argument.
proof fn lemma_series_bounds(r: int)
    requires
        abs_int(r) <= 262144,
    ensures
        abs_int(r * r) <= 68719476736,
        abs_int(div_trunc(r * r, SCALE as int)) <= 1048576,
        abs_int(div_trunc(r * r, SCALE as int) * r) <= 274877906944,
        abs_int(div_trunc(r * r, SCALE as int) * div_trunc(r * r, SCALE as int)) <= 1099511627776,
{
    lemma_mul_abs_bound(r, r, 262144, 262144);
    assert(262144int * 262144 == 68719476736) by (nonlinear_arith);
    lemma_div_trunc_bound(r * r, SCALE as int, 1048576);
    assert(1048576int * 65536 == 68719476736) by (nonlinear_arith);
    lemma_mul_abs_bound(div_trunc(r * r, SCALE as int), r, 1048576, 262144);
    assert(1048576int * 262144 == 274877906944) by (nonlinear_arith);
    lemma_mul_abs_bound(
        div_trunc(r * r, SCALE as int),
        div_trunc(r * r, SCALE as int),
        1048576,
        1048576,
    );
    assert(1048576int * 1048576 == 1099511627776) by (nonlinear_arith);
}

/// Fixed-point sine: reduction then the truncated series, exactly as the
/// spec states it.
#[verifier::rlimit(60)]
pub fn sin_fx(x: i64) -> (r: i64)
    ensures
        r == sin_fx_spec(x as int),
{
    let red = reduce(x);
    proof {
        lemma_series_bounds(red as int);
        let s = SCALE as int;
        let ri = red as int;
        let r2 = div_trunc(ri * ri, s);
        let r3 = div_trunc(r2 * ri, s);
        lemma_div_trunc_bound(r2 * ri, s, 4194304);
        assert(4194304int * 65536 == 274877906944) by (nonlinear_arith);
        lemma_mul_abs_bound(r3, r2, 4194304, 1048576);
        assert(4194304int * 1048576 == 4398046511104) by (nonlinear_arith);
        let r5 = div_trunc(r3 * r2, s);
        lemma_div_trunc_bound(r3 * r2, s, 67108864);
        assert(67108864int * 65536 == 4398046511104) by (nonlinear_arith);
        lemma_mul_abs_bound(r5, r2, 67108864, 1048576);
        assert(67108864int * 1048576 == 70368744177664) by (nonlinear_arith);
        let r7 = div_trunc(r5 * r2, s);
        lemma_div_trunc_bound(r5 * r2, s, 1073741824);
        assert(1073741824int * 65536 == 70368744177664) by (nonlinear_arith);
        lemma_mul_abs_bound(r7, r2, 1073741824, 1048576);
        assert(1073741824int * 1048576 == 1125899906842624) by (nonlinear_arith);
        let r9 = div_trunc(r7 * r2, s);
        lemma_div_trunc_bound(r7 * r2, s, 17179869184);
        assert(17179869184int * 65536 == 1125899906842624) by (nonlinear_arith);
        lemma_div_trunc_bound(r3, 6, 4194304);
        lemma_div_trunc_bound(r5, 120, 67108864);
        lemma_div_trunc_bound(r7, 5040, 1073741824);
        lemma_div_trunc_bound(r9, 362880, 17179869184);
        assert(4194304int * 6 >= 4194304 && 67108864int * 120 >= 67108864 && 1073741824int * 5040
            >= 1073741824 && 17179869184int * 362880 >= 17179869184) by (nonlinear_arith);
    }
    let ri = red as i128;
    let s = SCALE as i128;
    let r2 = div_i128(ri * ri, s);
    let r3 = div_i128(r2 * ri, s);
    let r5 = div_i128(r3 * r2, s);
    let r7 = div_i128(r5 * r2, s);
    let r9 = div_i128(r7 * r2, s);
    let out = ri - div_i128(r3, 6) + div_i128(r5, 120) - div_i128(r7, 5040) + div_i128(r9, 362880);
    out as i64
}

/// Fixed-point cosine: reduction then the truncated series, exactly as the
/// spec states it.
#[verifier::rlimit(60)]
pub fn cos_fx(x: i64) -> (r: i64)
    ensures
        r == cos_fx_spec(x as int),
{
    let red = reduce(x);
    proof {
        lemma_series_bounds(red as int);
        let s = SCALE as int;
        let ri = red as int;
        let r2 = div_trunc(ri * ri, s);
        let r4 = div_trunc(r2 * r2, s);
        lemma_div_trunc_bound(r2 * r2, s, 16777216);
        assert(16777216int * 65536 == 1099511627776) by (nonlinear_arith);
        lemma_mul_abs_bound(r4, r2, 16777216, 1048576);
        assert(16777216int * 1048576 == 17592186044416) by (nonlinear_arith);
        let r6 = div_trunc(r4 * r2, s);
        lemma_div_trunc_bound(r4 * r2, s, 268435456);
        assert(268435456int * 65536 == 17592186044416) by (nonlinear_arith);
        lemma_mul_abs_bound(r6, r2, 268435456, 1048576);
        assert(268435456int * 1048576 == 281474976710656) by (nonlinear_arith);
        let r8 = div_trunc(r6 * r2, s);
        lemma_div_trunc_bound(r6 * r2, s, 4294967296);
        assert(4294967296int * 65536 == 281474976710656) by (nonlinear_arith);
        lemma_div_trunc_bound(r2, 2, 1048576);
        lemma_div_trunc_bound(r4, 24, 16777216);
        lemma_div_trunc_bound(r6, 720, 268435456);
        lemma_div_trunc_bound(r8, 40320, 4294967296);
        assert(1048576int * 2 >= 1048576 && 16777216int * 24 >= 16777216 && 268435456int * 720
            >= 268435456 && 4294967296int * 40320 >= 4294967296) by (nonlinear_arith);
    }
    let ri = red as i128;
    let s = SCALE as i128;
    let r2 = div_i128(ri * ri, s);
    let r4 = div_i128(r2 * r2, s);
    let r6 = div_i128(r4 * r2, s);
    let r8 = div_i128(r6 * r2, s);
    let out = s - div_i128(r2, 2) + div_i128(r4, 24) - div_i128(r6, 720) + div_i128(r8, 40320);
    out as i64
}

} // verus!
