//! Fixed-point vector, matrix and quaternion primitives, and integer pixel
//! coordinates.
//!
//! All products are formed exactly in `i128`, scaled back by `SCALE` with
//! truncation, and saturated into `[-SAT_LIM, SAT_LIM]`, so every operation is
//! total and pinned by a spec function.

use vstd::prelude::*;
use crate::fixed::{
    SCALE,
    SAT_LIM,
    COORD_LIM,
    abs_int,
    div_trunc,
    sat_int,
    fx_add_spec,
    fx_sub_spec,
    sqrt_int,
    div_i128,
    sat_i128,
    isqrt_i128,
    lemma_mul_abs_bound,
    lemma_div_trunc_bound,
    lemma_sqrt_int_bounds,
};

verus! {

/// A 2D vector in 16.16 fixed point; used for texture coordinates.
#[derive(Debug, Clone, Copy, PartialEq, Eq, Structural)]
pub struct Vec2Fx {
    pub x: i64,
    pub y: i64,
}

impl Vec2Fx {
    pub fn new(x: i64, y: i64) -> (v: Self)
        ensures
            v == (Vec2Fx { x, y }),
    {
        Self { x, y }
    }

    /// Within the rasterizer's coordinate range.
    pub open spec fn bounded(&self) -> bool {
        &&& abs_int(self.x as int) <= COORD_LIM
        &&& abs_int(self.y as int) <= COORD_LIM
    }
}

/// A 3D vector in 16.16 fixed point.
#[derive(Debug, Clone, Copy, PartialEq, Eq, Structural)]
pub struct Vec3Fx {
    pub x: i64,
    pub y: i64,
    pub z: i64,
}

/// Component spec of the fixed-point cross product.
pub open spec fn v3_cross_x(a: Vec3Fx, b: Vec3Fx) -> int {
    sat_int(div_trunc(a.y * b.z - a.z * b.y, SCALE as int), SAT_LIM as int)
}

pub open spec fn v3_cross_y(a: Vec3Fx, b: Vec3Fx) -> int {
    sat_int(div_trunc(a.z * b.x - a.x * b.z, SCALE as int), SAT_LIM as int)
}

pub open spec fn v3_cross_z(a: Vec3Fx, b: Vec3Fx) -> int {
    sat_int(div_trunc(a.x * b.y - a.y * b.x, SCALE as int), SAT_LIM as int)
}

/// The fixed-point dot product.
pub open spec fn v3_dot(a: Vec3Fx, b: Vec3Fx) -> int {
    sat_int(div_trunc(a.x * b.x + a.y * b.y + a.z * b.z, SCALE as int), SAT_LIM as int)
}

/// The raw squared norm (scale `SCALE * SCALE`): its floor square root is the
/// vector's length in fixed point.
pub open spec fn v3_normsq(a: Vec3Fx) -> int {
    a.x * a.x + a.y * a.y + a.z * a.z
}

/// The fixed-point length.
pub open spec fn v3_len(a: Vec3Fx) -> int {
    sqrt_int(v3_normsq(a))
}

/// One component of the normalized vector; a zero-length vector normalizes to
/// zero (the documented stand-in for an undefined result).
pub open spec fn v3_norm_c(c: int, len: int) -> int {
    if len == 0 {
        0
    } else {
        div_trunc(c * SCALE, len)
    }
}

/// The saturating componentwise sum.
pub open spec fn v3_add_spec(a: Vec3Fx, b: Vec3Fx) -> Vec3Fx {
    Vec3Fx {
        x: fx_add_spec(a.x as int, b.x as int) as i64,
        y: fx_add_spec(a.y as int, b.y as int) as i64,
        z: fx_add_spec(a.z as int, b.z as int) as i64,
    }
}

/// The saturating componentwise difference.
pub open spec fn v3_sub_spec(a: Vec3Fx, b: Vec3Fx) -> Vec3Fx {
    Vec3Fx {
        x: fx_sub_spec(a.x as int, b.x as int) as i64,
        y: fx_sub_spec(a.y as int, b.y as int) as i64,
        z: fx_sub_spec(a.z as int, b.z as int) as i64,
    }
}

/// The fixed-point cross product as a vector.
pub open spec fn v3_cross_spec(a: Vec3Fx, b: Vec3Fx) -> Vec3Fx {
    Vec3Fx { x: v3_cross_x(a, b) as i64, y: v3_cross_y(a, b) as i64, z: v3_cross_z(a, b) as i64 }
}

/// The normalized vector; zero length normalizes to zero.
pub open spec fn v3_normalize_spec(a: Vec3Fx) -> Vec3Fx {
    Vec3Fx {
        x: v3_norm_c(a.x as int, v3_len(a)) as i64,
        y: v3_norm_c(a.y as int, v3_len(a)) as i64,
        z: v3_norm_c(a.z as int, v3_len(a)) as i64,
    }
}

impl Vec3Fx {
    pub fn new(x: i64, y: i64, z: i64) -> (v: Self)
        ensures
            v == (Vec3Fx { x, y, z }),
    {
        Self { x, y, z }
    }

    /// Within the rasterizer's coordinate range.
    pub open spec fn bounded(&self) -> bool {
        &&& abs_int(self.x as int) <= COORD_LIM
        &&& abs_int(self.y as int) <= COORD_LIM
        &&& abs_int(self.z as int) <= COORD_LIM
    }

    /// Within the general fixed-point range.
    pub open spec fn sat_bounded(&self) -> bool {
        &&& abs_int(self.x as int) <= SAT_LIM
        &&& abs_int(self.y as int) <= SAT_LIM
        &&& abs_int(self.z as int) <= SAT_LIM
    }

    /// Componentwise saturating addition.
    pub fn add(self, other: Self) -> (r: Self)
        ensures
            r == v3_add_spec(self, other),
            r.sat_bounded(),
    {
        Self {
            x: crate::fixed::fx_add(self.x, other.x),
            y: crate::fixed::fx_add(self.y, other.y),
            z: crate::fixed::fx_add(self.z, other.z),
        }
    }

    /// Componentwise saturating subtraction.
    pub fn sub(self, other: Self) -> (r: Self)
        ensures
            r == v3_sub_spec(self, other),
            r.sat_bounded(),
    {
        Self {
            x: crate::fixed::fx_sub(self.x, other.x),
            y: crate::fixed::fx_sub(self.y, other.y),
            z: crate::fixed::fx_sub(self.z, other.z),
        }
    }

    /// The fixed-point cross product.
    pub fn cross(&self, other: Self) -> (r: Self)
        requires
            self.sat_bounded(),
            other.sat_bounded(),
        ensures
            r == v3_cross_spec(*self, other),
            r.sat_bounded(),
    {
        proof {
            lemma_v3_products(*self, other);
        }
        let cx = div_i128(
            (self.y as i128) * (other.z as i128) - (self.z as i128) * (other.y as i128),
            SCALE as i128,
        );
        let cy = div_i128(
            (self.z as i128) * (other.x as i128) - (self.x as i128) * (other.z as i128),
            SCALE as i128,
        );
        let cz = div_i128(
            (self.x as i128) * (other.y as i128) - (self.y as i128) * (other.x as i128),
            SCALE as i128,
        );
        Self { x: sat_i128(cx, SAT_LIM), y: sat_i128(cy, SAT_LIM), z: sat_i128(cz, SAT_LIM) }
    }

    /// The fixed-point dot product.
    pub fn dot(&self, other: &Self) -> (r: i64)
        requires
            self.sat_bounded(),
            other.sat_bounded(),
        ensures
            r == v3_dot(*self, *other),
    {
        proof {
            lemma_v3_products(*self, *other);
        }
        let s = (self.x as i128) * (other.x as i128) + (self.y as i128) * (other.y as i128) + (
        self.z as i128) * (other.z as i128);
        sat_i128(div_i128(s, SCALE as i128), SAT_LIM)
    }

    /// The fixed-point length: the floor square root of the raw squared norm.
    pub fn length(&self) -> (r: i64)
        requires
            self.sat_bounded(),
        ensures
            r == v3_len(*self),
            0 <= r <= 2199023255552,
    {
        proof {
            lemma_v3_products(*self, *self);
            let sx = self.x as int;
            let sy = self.y as int;
            let sz = self.z as int;
            assert(sx * sx >= 0 && sy * sy >= 0 && sz * sz >= 0) by (nonlinear_arith);
            lemma_sqrt_int_bounds(v3_normsq(*self));
            let len = v3_len(*self);
            if len > 2199023255552 {
                assert(len * len > 4835703278458516698824704) by (nonlinear_arith)
                    requires
                        len > 2199023255552,
                ;
            }
        }
        let n = (self.x as i128) * (self.x as i128) + (self.y as i128) * (self.y as i128) + (
        self.z as i128) * (self.z as i128);
        isqrt_i128(n) as i64
    }

    /// Normalizes to unit length on the fixed grid; the zero vector maps to
    /// zero.  Every component of the result lies in `[-SCALE, SCALE]`.
    pub fn normalize(&self) -> (r: Self)
        requires
            self.sat_bounded(),
        ensures
            r == v3_normalize_spec(*self),
            abs_int(r.x as int) <= SCALE,
            abs_int(r.y as int) <= SCALE,
            abs_int(r.z as int) <= SCALE,
    {
        let len = self.length();
        if len == 0 {
            Self { x: 0, y: 0, z: 0 }
        } else {
            proof {
                lemma_norm_component(self.x as int, *self);
                lemma_norm_component(self.y as int, *self);
                lemma_norm_component(self.z as int, *self);
                lemma_mul_abs_bound(self.x as int, SCALE as int, SAT_LIM as int, SCALE as int);
                lemma_mul_abs_bound(self.y as int, SCALE as int, SAT_LIM as int, SCALE as int);
                lemma_mul_abs_bound(self.z as int, SCALE as int, SAT_LIM as int, SCALE as int);
            }
            let nx = div_i128((self.x as i128) * (SCALE as i128), len as i128) as i64;
            let ny = div_i128((self.y as i128) * (SCALE as i128), len as i128) as i64;
            let nz = div_i128((self.z as i128) * (SCALE as i128), len as i128) as i64;
            Self { x: nx, y: ny, z: nz }
        }
    }
}

/// Bounds on the pairwise products of two range-limited vectors.
proof fn lemma_v3_products(a: Vec3Fx, b: Vec3Fx)
    requires
        a.sat_bounded(),
        b.sat_bounded(),
    ensures
        abs_int(a.x * b.x) <= 1208925819614629174706176,
        abs_int(a.y * b.y) <= 1208925819614629174706176,
        abs_int(a.z * b.z) <= 1208925819614629174706176,
        abs_int(a.x * b.y) <= 1208925819614629174706176,
        abs_int(a.y * b.x) <= 1208925819614629174706176,
        abs_int(a.x * b.z) <= 1208925819614629174706176,
        abs_int(a.z * b.x) <= 1208925819614629174706176,
        abs_int(a.y * b.z) <= 1208925819614629174706176,
        abs_int(a.z * b.y) <= 1208925819614629174706176,
{
    let l = SAT_LIM as int;
    lemma_mul_abs_bound(a.x as int, b.x as int, l, l);
    lemma_mul_abs_bound(a.y as int, b.y as int, l, l);
    lemma_mul_abs_bound(a.z as int, b.z as int, l, l);
    lemma_mul_abs_bound(a.x as int, b.y as int, l, l);
    lemma_mul_abs_bound(a.y as int, b.x as int, l, l);
    lemma_mul_abs_bound(a.x as int, b.z as int, l, l);
    lemma_mul_abs_bound(a.z as int, b.x as int, l, l);
    lemma_mul_abs_bound(a.y as int, b.z as int, l, l);
    lemma_mul_abs_bound(a.z as int, b.y as int, l, l);
    assert(1099511627776int * 1099511627776 == 1208925819614629174706176) by (nonlinear_arith);
}

/// A component is never longer than the whole vector, so each normalized
/// component lies in `[-SCALE, SCALE]`.
proof fn lemma_norm_component(c: int, v: Vec3Fx)
    requires
        v.sat_bounded(),
        c == v.x as int || c == v.y as int || c == v.z as int,
        v3_len(v) != 0,
    ensures
        abs_int(div_trunc(c * SCALE, v3_len(v))) <= SCALE,
{
    let n = v3_normsq(v);
    let len = v3_len(v);
    assert(n >= 0 && c * c <= n) by (nonlinear_arith)
        requires
            c == v.x as int || c == v.y as int || c == v.z as int,
            n == v.x * v.x + v.y * v.y + v.z * v.z,
    ;
    lemma_sqrt_int_bounds(n);
    assert(abs_int(c) <= len) by (nonlinear_arith)
        requires
            c * c <= n,
            len >= 0,
            len * len <= n,
            (len + 1) * (len + 1) > n,
    ;
    assert(abs_int(c * SCALE) <= (SCALE as int) * abs_int(len)) by (nonlinear_arith)
        requires
            abs_int(c) <= abs_int(len),
    ;
    lemma_div_trunc_bound(c * SCALE, len, SCALE as int);
}

/// A homogeneous 4D vector in 16.16 fixed point.
#[derive(Debug, Clone, Copy, PartialEq, Eq, Structural)]
pub struct Vec4Fx {
    pub x: i64,
    pub y: i64,
    pub z: i64,
    pub w: i64,
}

impl Vec4Fx {
    pub fn new(x: i64, y: i64, z: i64, w: i64) -> (v: Self)
        ensures
            v == (Vec4Fx { x, y, z, w }),
    {
        Self { x, y, z, w }
    }

    /// Within the general fixed-point range.
    pub open spec fn sat_bounded(&self) -> bool {
        &&& abs_int(self.x as int) <= SAT_LIM
        &&& abs_int(self.y as int) <= SAT_LIM
        &&& abs_int(self.z as int) <= SAT_LIM
        &&& abs_int(self.w as int) <= SAT_LIM
    }
}

/// A quaternion in 16.16 fixed point (unit length for a pure rotation).
#[derive(Debug, Clone, Copy, PartialEq, Eq, Structural)]
pub struct QuatFx {
    pub x: i64,
    pub y: i64,
    pub z: i64,
    pub w: i64,
}

impl QuatFx {
    pub fn new(x: i64, y: i64, z: i64, w: i64) -> (q: Self)
        ensures
            q == (QuatFx { x, y, z, w }),
    {
        Self { x, y, z, w }
    }

    /// The identity rotation.
    pub fn identity() -> (q: Self)
        ensures
            q == (QuatFx { x: 0i64, y: 0i64, z: 0i64, w: SCALE }),
    {
        Self { x: 0, y: 0, z: 0, w: SCALE }
    }
}

/// A 4x4 matrix in 16.16 fixed point, column major: `mCR` is column `C`,
/// row `R`; column 3 holds the translation.
#[derive(Debug, Clone, Copy, PartialEq, Eq, Structural)]
pub struct Mat4Fx {
    pub m00: i64,
    pub m01: i64,
    pub m02: i64,
    pub m03: i64,
    pub m10: i64,
    pub m11: i64,
    pub m12: i64,
    pub m13: i64,
    pub m20: i64,
    pub m21: i64,
    pub m22: i64,
    pub m23: i64,
    pub m30: i64,
    pub m31: i64,
    pub m32: i64,
    pub m33: i64,
}

/// All entries within the general fixed-point range.
pub open spec fn mat4_wf(a: Mat4Fx) -> bool {
    &&& abs_int(a.m00 as int) <= SAT_LIM
    &&& abs_int(a.m01 as int) <= SAT_LIM
    &&& abs_int(a.m02 as int) <= SAT_LIM
    &&& abs_int(a.m03 as int) <= SAT_LIM
    &&& abs_int(a.m10 as int) <= SAT_LIM
    &&& abs_int(a.m11 as int) <= SAT_LIM
    &&& abs_int(a.m12 as int) <= SAT_LIM
    &&& abs_int(a.m13 as int) <= SAT_LIM
    &&& abs_int(a.m20 as int) <= SAT_LIM
    &&& abs_int(a.m21 as int) <= SAT_LIM
    &&& abs_int(a.m22 as int) <= SAT_LIM
    &&& abs_int(a.m23 as int) <= SAT_LIM
    &&& abs_int(a.m30 as int) <= SAT_LIM
    &&& abs_int(a.m31 as int) <= SAT_LIM
    &&& abs_int(a.m32 as int) <= SAT_LIM
    &&& abs_int(a.m33 as int) <= SAT_LIM
}

/// Row 0 of `a` applied to a column vector.
pub open spec fn lin4_x(a: Mat4Fx, x: int, y: int, z: int, w: int) -> int {
    sat_int(
        div_trunc(a.m00 * x + a.m10 * y + a.m20 * z + a.m30 * w, SCALE as int),
        SAT_LIM as int,
    )
}

/// Row 1 of `a` applied to a column vector.
pub open spec fn lin4_y(a: Mat4Fx, x: int, y: int, z: int, w: int) -> int {
    sat_int(
        div_trunc(a.m01 * x + a.m11 * y + a.m21 * z + a.m31 * w, SCALE as int),
        SAT_LIM as int,
    )
}

/// Row 2 of `a` applied to a column vector.
pub open spec fn lin4_z(a: Mat4Fx, x: int, y: int, z: int, w: int) -> int {
    sat_int(
        div_trunc(a.m02 * x + a.m12 * y + a.m22 * z + a.m32 * w, SCALE as int),
        SAT_LIM as int,
    )
}

/// Row 3 of `a` applied to a column vector.
pub open spec fn lin4_w(a: Mat4Fx, x: int, y: int, z: int, w: int) -> int {
    sat_int(
        div_trunc(a.m03 * x + a.m13 * y + a.m23 * z + a.m33 * w, SCALE as int),
        SAT_LIM as int,
    )
}

/// The fixed-point matrix product, column by column.
pub open spec fn mat4_mul(a: Mat4Fx, b: Mat4Fx) -> Mat4Fx {
    Mat4Fx {
        m00: lin4_x(a, b.m00 as int, b.m01 as int, b.m02 as int, b.m03 as int) as i64,
        m01: lin4_y(a, b.m00 as int, b.m01 as int, b.m02 as int, b.m03 as int) as i64,
        m02: lin4_z(a, b.m00 as int, b.m01 as int, b.m02 as int, b.m03 as int) as i64,
        m03: lin4_w(a, b.m00 as int, b.m01 as int, b.m02 as int, b.m03 as int) as i64,
        m10: lin4_x(a, b.m10 as int, b.m11 as int, b.m12 as int, b.m13 as int) as i64,
        m11: lin4_y(a, b.m10 as int, b.m11 as int, b.m12 as int, b.m13 as int) as i64,
        m12: lin4_z(a, b.m10 as int, b.m11 as int, b.m12 as int, b.m13 as int) as i64,
        m13: lin4_w(a, b.m10 as int, b.m11 as int, b.m12 as int, b.m13 as int) as i64,
        m20: lin4_x(a, b.m20 as int, b.m21 as int, b.m22 as int, b.m23 as int) as i64,
        m21: lin4_y(a, b.m20 as int, b.m21 as int, b.m22 as int, b.m23 as int) as i64,
        m22: lin4_z(a, b.m20 as int, b.m21 as int, b.m22 as int, b.m23 as int) as i64,
        m23: lin4_w(a, b.m20 as int, b.m21 as int, b.m22 as int, b.m23 as int) as i64,
        m30: lin4_x(a, b.m30 as int, b.m31 as int, b.m32 as int, b.m33 as int) as i64,
        m31: lin4_y(a, b.m30 as int, b.m31 as int, b.m32 as int, b.m33 as int) as i64,
        m32: lin4_z(a, b.m30 as int, b.m31 as int, b.m32 as int, b.m33 as int) as i64,
        m33: lin4_w(a, b.m30 as int, b.m31 as int, b.m32 as int, b.m33 as int) as i64,
    }
}

/// The identity matrix (ones on the diagonal, in fixed point).
pub open spec fn mat4_identity() -> Mat4Fx {
    Mat4Fx {
        m00: SCALE,
        m01: 0i64,
        m02: 0i64,
        m03: 0i64,
        m10: 0i64,
        m11: SCALE,
        m12: 0i64,
        m13: 0i64,
        m20: 0i64,
        m21: 0i64,
        m22: SCALE,
        m23: 0i64,
        m30: 0i64,
        m31: 0i64,
        m32: 0i64,
        m33: SCALE,
    }
}

/// Bounds on the four products and their sum inside one `lin4` row.
proof fn lemma_lin4_fits(m0: int, m1: int, m2: int, m3: int, x: int, y: int, z: int, w: int)
    requires
        abs_int(m0) <= SAT_LIM,
        abs_int(m1) <= SAT_LIM,
        abs_int(m2) <= SAT_LIM,
        abs_int(m3) <= SAT_LIM,
        abs_int(x) <= SAT_LIM,
        abs_int(y) <= SAT_LIM,
        abs_int(z) <= SAT_LIM,
        abs_int(w) <= SAT_LIM,
    ensures
        abs_int(m0 * x) <= 1208925819614629174706176,
        abs_int(m1 * y) <= 1208925819614629174706176,
        abs_int(m2 * z) <= 1208925819614629174706176,
        abs_int(m3 * w) <= 1208925819614629174706176,
        abs_int(m0 * x + m1 * y + m2 * z + m3 * w) <= 4835703278458516698824704,
{
    let l = SAT_LIM as int;
    lemma_mul_abs_bound(m0, x, l, l);
    lemma_mul_abs_bound(m1, y, l, l);
    lemma_mul_abs_bound(m2, z, l, l);
    lemma_mul_abs_bound(m3, w, l, l);
    assert(1099511627776int * 1099511627776 == 1208925819614629174706176) by (nonlinear_arith);
}

impl Mat4Fx {
    pub fn identity() -> (m: Self)
        ensures
            m == mat4_identity(),
            mat4_wf(m),
    {
        Self {
            m00: SCALE,
            m01: 0,
            m02: 0,
            m03: 0,
            m10: 0,
            m11: SCALE,
            m12: 0,
            m13: 0,
            m20: 0,
            m21: 0,
            m22: SCALE,
            m23: 0,
            m30: 0,
            m31: 0,
            m32: 0,
            m33: SCALE,
        }
    }

    /// Applies this matrix to a homogeneous column vector.
    pub fn transform4(&self, v: Vec4Fx) -> (r: Vec4Fx)
        requires
            mat4_wf(*self),
            v.sat_bounded(),
        ensures
            r.x == lin4_x(*self, v.x as int, v.y as int, v.z as int, v.w as int),
            r.y == lin4_y(*self, v.x as int, v.y as int, v.z as int, v.w as int),
            r.z == lin4_z(*self, v.x as int, v.y as int, v.z as int, v.w as int),
            r.w == lin4_w(*self, v.x as int, v.y as int, v.z as int, v.w as int),
            r.sat_bounded(),
    {
        proof {
            lemma_lin4_fits(
                self.m00 as int,
                self.m10 as int,
                self.m20 as int,
                self.m30 as int,
                v.x as int,
                v.y as int,
                v.z as int,
                v.w as int,
            );
            lemma_lin4_fits(
                self.m01 as int,
                self.m11 as int,
                self.m21 as int,
                self.m31 as int,
                v.x as int,
                v.y as int,
                v.z as int,
                v.w as int,
            );
            lemma_lin4_fits(
                self.m02 as int,
                self.m12 as int,
                self.m22 as int,
                self.m32 as int,
                v.x as int,
                v.y as int,
                v.z as int,
                v.w as int,
            );
            lemma_lin4_fits(
                self.m03 as int,
                self.m13 as int,
                self.m23 as int,
                self.m33 as int,
                v.x as int,
                v.y as int,
                v.z as int,
                v.w as int,
            );
        }
        let xi = v.x as i128;
        let yi = v.y as i128;
        let zi = v.z as i128;
        let wi = v.w as i128;
        let rx = div_i128(
            (self.m00 as i128) * xi + (self.m10 as i128) * yi + (self.m20 as i128) * zi + (
            self.m30 as i128) * wi,
            SCALE as i128,
        );
        let ry = div_i128(
            (self.m01 as i128) * xi + (self.m11 as i128) * yi + (self.m21 as i128) * zi + (
            self.m31 as i128) * wi,
            SCALE as i128,
        );
        let rz = div_i128(
            (self.m02 as i128) * xi + (self.m12 as i128) * yi + (self.m22 as i128) * zi + (
            self.m32 as i128) * wi,
            SCALE as i128,
        );
        let rw = div_i128(
            (self.m03 as i128) * xi + (self.m13 as i128) * yi + (self.m23 as i128) * zi + (
            self.m33 as i128) * wi,
            SCALE as i128,
        );
        Vec4Fx {
            x: sat_i128(rx, SAT_LIM),
            y: sat_i128(ry, SAT_LIM),
            z: sat_i128(rz, SAT_LIM),
            w: sat_i128(rw, SAT_LIM),
        }
    }

    /// The fixed-point matrix product `self * other`.
    pub fn mul(&self, other: &Self) -> (r: Self)
        requires
            mat4_wf(*self),
            mat4_wf(*other),
        ensures
            r == mat4_mul(*self, *other),
            mat4_wf(r),
    {
        let c0 = self.transform4(Vec4Fx { x: other.m00, y: other.m01, z: other.m02, w: other.m03 });
        let c1 = self.transform4(Vec4Fx { x: other.m10, y: other.m11, z: other.m12, w: other.m13 });
        let c2 = self.transform4(Vec4Fx { x: other.m20, y: other.m21, z: other.m22, w: other.m23 });
        let c3 = self.transform4(Vec4Fx { x: other.m30, y: other.m31, z: other.m32, w: other.m33 });
        Self {
            m00: c0.x,
            m01: c0.y,
            m02: c0.z,
            m03: c0.w,
            m10: c1.x,
            m11: c1.y,
            m12: c1.z,
            m13: c1.w,
            m20: c2.x,
            m21: c2.y,
            m22: c2.z,
            m23: c2.w,
            m30: c3.x,
            m31: c3.y,
            m32: c3.z,
            m33: c3.w,
        }
    }
}

/// A multiplication by the identity returns a well-formed matrix unchanged.
pub proof fn lemma_mat4_identity_left(a: Mat4Fx)
    requires
        mat4_wf(a),
    ensures
        mat4_mul(mat4_identity(), a) == a,
{
    lemma_identity_row(a.m00 as int, a.m01 as int, a.m02 as int, a.m03 as int);
    lemma_identity_row(a.m10 as int, a.m11 as int, a.m12 as int, a.m13 as int);
    lemma_identity_row(a.m20 as int, a.m21 as int, a.m22 as int, a.m23 as int);
    lemma_identity_row(a.m30 as int, a.m31 as int, a.m32 as int, a.m33 as int);
}

/// One column against the identity matrix: each entry comes back unchanged.
proof fn lemma_identity_row(x: int, y: int, z: int, w: int)
    requires
        abs_int(x) <= SAT_LIM,
        abs_int(y) <= SAT_LIM,
        abs_int(z) <= SAT_LIM,
        abs_int(w) <= SAT_LIM,
    ensures
        lin4_x(mat4_identity(), x, y, z, w) == x,
        lin4_y(mat4_identity(), x, y, z, w) == y,
        lin4_z(mat4_identity(), x, y, z, w) == z,
        lin4_w(mat4_identity(), x, y, z, w) == w,
{
    let s = SCALE as int;
    lemma_identity_entry(x);
    lemma_identity_entry(y);
    lemma_identity_entry(z);
    lemma_identity_entry(w);
}

/// `(SCALE * v) / SCALE == v`, the identity of the fixed-point grid.
proof fn lemma_identity_entry(v: int)
    ensures
        div_trunc(SCALE as int * v + 0 * 0 + 0 * 0 + 0 * 0, SCALE as int) == v,
        div_trunc(0 * 0 + SCALE as int * v + 0 * 0 + 0 * 0, SCALE as int) == v,
        div_trunc(0 * 0 + 0 * 0 + SCALE as int * v + 0 * 0, SCALE as int) == v,
        div_trunc(0 * 0 + 0 * 0 + 0 * 0 + SCALE as int * v, SCALE as int) == v,
{
    if v >= 0 {
        vstd::arithmetic::div_mod::lemma_div_multiples_vanish(v, 65536);
        assert(65536 * v >= 0) by (nonlinear_arith)
            requires
                v >= 0,
        ;
    } else {
        vstd::arithmetic::div_mod::lemma_div_multiples_vanish(-v, 65536);
        assert(65536 * v < 0 && -(65536 * v) == 65536 * (-v)) by (nonlinear_arith)
            requires
                v < 0,
        ;
    }
}

/// An integer pixel coordinate pair.
#[derive(Debug, Clone, Copy, PartialEq, Eq, Structural)]
pub struct Vec2i {
    pub x: i32,
    pub y: i32,
}

impl Vec2i {
    pub fn new(x: i32, y: i32) -> (v: Self)
        ensures
            v == (Vec2i { x, y }),
    {
        Self { x, y }
    }
}

/// Anything that names a whole pixel on the screen grid.
pub trait PixelPoint {
    /// The pixel as a plain coordinate pair.
    spec fn spec_tuple(&self) -> (int, int);

    fn to_i32_tuple(&self) -> (r: (i32, i32))
        ensures
            r.0 == self.spec_tuple().0,
            r.1 == self.spec_tuple().1,
    ;
}

impl PixelPoint for (i32, i32) {
    open spec fn spec_tuple(&self) -> (int, int) {
        (self.0 as int, self.1 as int)
    }

    fn to_i32_tuple(&self) -> (r: (i32, i32)) {
        *self
    }
}

impl PixelPoint for Vec2i {
    open spec fn spec_tuple(&self) -> (int, int) {
        (self.x as int, self.y as int)
    }

    fn to_i32_tuple(&self) -> (r: (i32, i32)) {
        (self.x, self.y)
    }
}

/// The slope of the line through two pixels, in fixed point.
pub open spec fn line_gradient(x0: int, y0: int, x1: int, y1: int) -> int {
    div_trunc((y1 - y0) * SCALE, x1 - x0)
}

/// The y-intercept of that line, in fixed point, saturated.
pub open spec fn line_intercept(x0: int, y0: int, x1: int, y1: int) -> int {
    sat_int(y0 * SCALE - line_gradient(x0, y0, x1, y1) * x0, SAT_LIM as int)
}

/// The gradient and intercept of the line through two pixels; a vertical line
/// (equal x) has none.
pub fn compute_line_parameters<P: PixelPoint + Copy>(p0: P, p1: P) -> (r: Option<(i64, i64)>)
    ensures
        p1.spec_tuple().0 == p0.spec_tuple().0 <==> r is None,
        r matches Some(gi) ==> {
            &&& gi.0 == line_gradient(
                p0.spec_tuple().0,
                p0.spec_tuple().1,
                p1.spec_tuple().0,
                p1.spec_tuple().1,
            )
            &&& gi.1 == line_intercept(
                p0.spec_tuple().0,
                p0.spec_tuple().1,
                p1.spec_tuple().0,
                p1.spec_tuple().1,
            )
        },
{
    let p0_tuple = p0.to_i32_tuple();
    let p1_tuple = p1.to_i32_tuple();
    let dx = (p1_tuple.0 as i64) - (p0_tuple.0 as i64);
    let dy = (p1_tuple.1 as i64) - (p0_tuple.1 as i64);
    if dx == 0 {
        None
    } else {
        proof {
            lemma_mul_abs_bound(dy as int, SCALE as int, 4294967296, 65536);
            crate::fixed::lemma_div_trunc_shrinks((dy as int) * (SCALE as int), dx as int);
            lemma_mul_abs_bound(
                line_gradient(
                    p0_tuple.0 as int,
                    p0_tuple.1 as int,
                    p1_tuple.0 as int,
                    p1_tuple.1 as int,
                ),
                p0_tuple.0 as int,
                281474976710656,
                2147483648,
            );
            lemma_mul_abs_bound(p0_tuple.1 as int, SCALE as int, 2147483648, 65536);
        }
        let gradient = div_i128((dy as i128) * (SCALE as i128), dx as i128) as i64;
        let intercept = sat_i128(
            (p0_tuple.1 as i128) * (SCALE as i128) - (gradient as i128) * (p0_tuple.0 as i128),
            SAT_LIM,
        );
        Some((gradient, intercept))
    }
}

} // verus!
