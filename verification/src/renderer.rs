//! The rasterizer: a colour framebuffer and a parallel depth buffer, with
//! clearing, pixel access, vertical flipping and buffer export.
//!
//! The framebuffer is a row-major RGBA byte buffer; the depth buffer holds one
//! 16.16 fixed-point entry per pixel.  Row 0 is the mathematical bottom of the
//! image; `flip_vertically` reorders the rows for presentation.

use vstd::prelude::*;
use crate::fixed::{
    SCALE,
    COORD_LIM,
    abs_int,
    div_trunc,
    min_int,
    max_int,
    min_i64,
    max_i64,
    div_i128,
    lemma_mul_abs_bound,
    lemma_div_trunc_bound,
    lemma_grid_index,
};
use crate::geometry::{
    Vec2Fx,
    Vec3Fx,
    Vec4Fx,
    Mat4Fx,
    mat4_wf,
    lin4_x,
    lin4_y,
    lin4_z,
    lin4_w,
    v3_sub_spec,
    v3_cross_spec,
    v3_cross_z,
    v3_normalize_spec,
    v3_norm_c,
    v3_len,
    v3_dot,
    v3_normsq,
};
use crate::texture::{Texture, sample_spec};
use crate::model::{Model, ModelManager, faces_view};
use crate::fixed::{sat_int, fx_div_spec, fx_div, sat_i128, HALF};
use crate::texture::TextureManager;
use crate::camera::{Camera, CameraManager, view_matrix_spec, projection_matrix_spec};
use crate::scene::{Node, NodeType, spec_traverse, lemma_spec_traverse_wf};
use crate::geometry::mat4_identity;

verus! {

/// The depth buffer's "nothing drawn yet" value: the minimum representable
/// depth, so that the greater-wins depth test accepts the first cover.
pub const DEPTH_SENTINEL: i64 = i64::MIN;

/// Largest supported framebuffer side length; keeps every fixed-point pixel
/// coordinate within the rasterizer's overflow bounds.
pub const MAX_DIM: usize = 8192;

#[derive(Debug)]
pub enum Error {
    OutOfBounds,
}

/// An RGBA colour, one byte per channel.
#[derive(Debug, Clone, Copy, PartialEq, Eq, Structural)]
pub struct Color {
    pub r: u8,
    pub g: u8,
    pub b: u8,
    pub a: u8,
}

/// A colour with every channel scaled by a fixed-point factor in `[0, 1]`,
/// truncating.
pub open spec fn scale_color_spec(c: Color, intensity: int) -> Color {
    Color {
        r: (c.r * intensity / (SCALE as int)) as u8,
        g: (c.g * intensity / (SCALE as int)) as u8,
        b: (c.b * intensity / (SCALE as int)) as u8,
        a: (c.a * intensity / (SCALE as int)) as u8,
    }
}

impl Color {
    pub fn new(r: u8, g: u8, b: u8, a: u8) -> (c: Self)
        ensures
            c == (Color { r, g, b, a }),
    {
        Self { r, g, b, a }
    }

    /// Scales all four channels by a fixed-point shading intensity.
    pub fn scale_by_intensity(&self, intensity: i64) -> (c: Self)
        requires
            0 <= intensity <= SCALE,
        ensures
            c == scale_color_spec(*self, intensity as int),
    {
        let r = Self::scale_channel(self.r, intensity);
        let g = Self::scale_channel(self.g, intensity);
        let b = Self::scale_channel(self.b, intensity);
        let a = Self::scale_channel(self.a, intensity);
        Self { r, g, b, a }
    }

    fn scale_channel(ch: u8, intensity: i64) -> (r: u8)
        requires
            0 <= intensity <= SCALE,
        ensures
            r == (ch * intensity / (SCALE as int)) as u8,
    {
        proof {
            lemma_mul_abs_bound(ch as int, intensity as int, 255, 65536);
            vstd::arithmetic::div_mod::lemma_div_is_ordered(
                (ch as int) * (intensity as int),
                16711680int,
                65536,
            );
            vstd::arithmetic::div_mod::lemma_div_by_multiple(255, 65536);
            vstd::arithmetic::div_mod::lemma_div_pos_is_pos((ch as int) * (intensity as int), 65536);
        }
        ((ch as u64) * (intensity as u64) / 65536) as u8
    }
}

pub struct Renderer {
    width: usize,
    height: usize,
    pixels: Vec<u8>,
    z_buffer: Vec<i64>,
}

/// The byte sequence of a framebuffer cleared to colour `c`, `n` pixels long.
pub open spec fn cleared_pixels(n: int, c: Color) -> Seq<u8> {
    Seq::new((4 * n) as nat, |t: int| channel_of(c, t % 4))
}

/// Channel `k` (0..3) of a colour.
pub open spec fn channel_of(c: Color, k: int) -> u8 {
    if k == 0 {
        c.r
    } else if k == 1 {
        c.g
    } else if k == 2 {
        c.b
    } else {
        c.a
    }
}

/// The pixel byte sequence with pixel `index` overwritten by colour `c`.
pub open spec fn with_pixel(p: Seq<u8>, index: int, c: Color) -> Seq<u8> {
    p.update(4 * index, c.r).update(4 * index + 1, c.g).update(4 * index + 2, c.b).update(
        4 * index + 3,
        c.a,
    )
}

/// The byte offset a vertical flip reads from: the same column and channel in
/// the mirrored row.
pub open spec fn flip_byte(t: int, w: int, h: int) -> int {
    let pix = t / 4;
    let x = pix % w;
    let y = pix / w;
    4 * ((h - 1 - y) * w + x) + (t % 4)
}

/// The framebuffer with its rows in reverse order.
pub open spec fn flipped_pixels(p: Seq<u8>, w: int, h: int) -> Seq<u8> {
    Seq::new(p.len(), |t: int| p[flip_byte(t, w, h)])
}

/// The smaller of a byte's row index and its mirror row index; rows are
/// exchanged in order of this value.
pub open spec fn row_pair(t: int, w: int, h: int) -> int {
    let y = (t / 4) / w;
    if y <= h - 1 - y {
        y
    } else {
        h - 1 - y
    }
}

/// A viewport within the supported size has a small pixel and byte count.
pub proof fn lemma_dims_bound(w: int, h: int)
    requires
        0 <= w <= MAX_DIM,
        0 <= h <= MAX_DIM,
    ensures
        w * h <= 67108864,
        w * h * 4 <= 268435456,
    decreases 0int,
{
    assert(w * h <= 67108864 && w * h * 4 <= 268435456) by (nonlinear_arith)
        requires
            0 <= w <= 8192,
            0 <= h <= 8192,
    ;
}

/// A byte offset into a `w * h` framebuffer decomposes into a pixel index,
/// which decomposes in turn into a column and a row.
pub proof fn lemma_byte_decomp(t: int, w: int, h: int)
    requires
        0 < w,
        0 < h,
        0 <= t < w * h * 4,
    ensures
        0 <= t / 4 < w * h,
        4 * (t / 4) <= t < 4 * (t / 4) + 4,
        t % 4 == t - 4 * (t / 4),
        0 <= (t / 4) % w < w,
        0 <= (t / 4) / w < h,
        t / 4 == ((t / 4) / w) * w + ((t / 4) % w),
{
    vstd::arithmetic::div_mod::lemma_fundamental_div_mod(t, 4);
    vstd::arithmetic::div_mod::lemma_mod_division_less_than_divisor(t, 4);
    vstd::arithmetic::div_mod::lemma_div_pos_is_pos(t, 4);
    assert(4 * (t / 4) <= t < w * h * 4);
    assert(t / 4 < w * h);
    lemma_pixel_coords(t / 4, w, h);
}

impl Renderer {
    pub closed spec fn spec_width(&self) -> usize {
        self.width
    }

    pub closed spec fn spec_height(&self) -> usize {
        self.height
    }

    pub closed spec fn spec_pixels(&self) -> Seq<u8> {
        self.pixels@
    }

    pub closed spec fn spec_depths(&self) -> Seq<i64> {
        self.z_buffer@
    }

    /// Buffer lengths agree with the viewport, and the viewport is within the
    /// supported size.
    pub open spec fn wf(&self) -> bool {
        &&& self.spec_pixels().len() == self.spec_width() * self.spec_height() * 4
        &&& self.spec_depths().len() == self.spec_width() * self.spec_height()
        &&& self.spec_width() <= MAX_DIM
        &&& self.spec_height() <= MAX_DIM
    }

    /// Number of pixels in the viewport.
    pub open spec fn pixel_count(&self) -> int {
        self.spec_width() * self.spec_height()
    }

    /// The colour stored at pixel `index`.
    pub open spec fn pixel_color_at(&self, index: int) -> Color {
        Color {
            r: self.spec_pixels()[4 * index],
            g: self.spec_pixels()[4 * index + 1],
            b: self.spec_pixels()[4 * index + 2],
            a: self.spec_pixels()[4 * index + 3],
        }
    }

    /// Both buffers sized to the viewport; every depth entry starts at the
    /// sentinel, every pixel at zero.
    pub fn new(width: usize, height: usize) -> (r: Self)
        requires
            width <= MAX_DIM,
            height <= MAX_DIM,
        ensures
            r.wf(),
            r.spec_width() == width,
            r.spec_height() == height,
            r.spec_pixels() == Seq::new((width * height * 4) as nat, |t: int| 0u8),
            r.spec_depths() == Seq::new((width * height) as nat, |t: int| DEPTH_SENTINEL),
    {
        proof {
            lemma_dims_bound(width as int, height as int);
        }
        let n = width * height;
        let mut pixels: Vec<u8> = Vec::new();
        let mut z_buffer: Vec<i64> = Vec::new();
        let mut i: usize = 0;
        while i < n * 4
            invariant
                i <= n * 4,
                pixels@ =~= Seq::new(i as nat, |t: int| 0u8),
                n * 4 <= usize::MAX,
            decreases n * 4 - i,
        {
            pixels.push(0);
            i = i + 1;
            proof {
                assert(pixels@ =~= Seq::new(i as nat, |t: int| 0u8));
            }
        }
        let mut j: usize = 0;
        while j < n
            invariant
                j <= n,
                z_buffer@ =~= Seq::new(j as nat, |t: int| DEPTH_SENTINEL),
            decreases n - j,
        {
            z_buffer.push(DEPTH_SENTINEL);
            j = j + 1;
            proof {
                assert(z_buffer@ =~= Seq::new(j as nat, |t: int| DEPTH_SENTINEL));
            }
        }
        Self { width, height, pixels, z_buffer }
    }

    /// Writes one pixel; an index past the viewport is reported, not written.
    pub fn set_pixel(&mut self, index: usize, color: Color) -> (r: Result<(), Error>)
        requires
            old(self).wf(),
        ensures
            final(self).wf(),
            final(self).spec_width() == old(self).spec_width(),
            final(self).spec_height() == old(self).spec_height(),
            final(self).spec_depths() == old(self).spec_depths(),
            index < old(self).pixel_count() ==> {
                &&& r is Ok
                &&& final(self).spec_pixels() == with_pixel(old(self).spec_pixels(), index as int, color)
            },
            index >= old(self).pixel_count() ==> {
                &&& r is Err
                &&& final(self).spec_pixels() == old(self).spec_pixels()
            },
    {
        proof {
            lemma_dims_bound(self.spec_width() as int, self.spec_height() as int);
        }
        if index >= self.width * self.height {
            return Err(Error::OutOfBounds);
        }
        self.pixels[index * 4] = color.r;
        self.pixels[index * 4 + 1] = color.g;
        self.pixels[index * 4 + 2] = color.b;
        self.pixels[index * 4 + 3] = color.a;
        Ok(())
    }

    /// Reads one pixel; an index past the viewport is reported.
    pub fn get_pixel_color(&self, index: usize) -> (r: Result<Color, Error>)
        requires
            self.wf(),
        ensures
            index < self.pixel_count() ==> r == Ok::<Color, Error>(self.pixel_color_at(index as int)),
            index >= self.pixel_count() ==> r is Err,
    {
        proof {
            lemma_dims_bound(self.spec_width() as int, self.spec_height() as int);
        }
        if index >= self.width * self.height {
            return Err(Error::OutOfBounds);
        }
        Ok(Color {
            r: self.pixels[index * 4],
            g: self.pixels[index * 4 + 1],
            b: self.pixels[index * 4 + 2],
            a: self.pixels[index * 4 + 3],
        })
    }

    /// Reads one depth-buffer entry; an index past the viewport is reported.
    pub fn get_depth(&self, index: usize) -> (r: Result<i64, Error>)
        requires
            self.wf(),
        ensures
            index < self.pixel_count() ==> r == Ok::<i64, Error>(self.spec_depths()[index as int]),
            index >= self.pixel_count() ==> r is Err,
    {
        proof {
            lemma_dims_bound(self.spec_width() as int, self.spec_height() as int);
        }
        if index >= self.width * self.height {
            return Err(Error::OutOfBounds);
        }
        Ok(self.z_buffer[index])
    }

    /// Fills every pixel with `color`; the depth buffer is untouched.
    pub fn clear(&mut self, color: Color)
        requires
            old(self).wf(),
        ensures
            final(self).wf(),
            final(self).spec_width() == old(self).spec_width(),
            final(self).spec_height() == old(self).spec_height(),
            final(self).spec_depths() == old(self).spec_depths(),
            final(self).spec_pixels() == cleared_pixels(old(self).pixel_count(), color),
            forall|i: int|
                0 <= i < final(self).pixel_count() ==> final(self).pixel_color_at(i) == color,
    {
        let w = self.width;
        let h = self.height;
        let mut i: usize = 0;
        while i < w
            invariant
                i <= w,
                self.wf(),
                self.spec_width() == w,
                self.spec_height() == h,
                self.spec_depths() == old(self).spec_depths(),
                forall|t: int|
                    0 <= t < self.spec_pixels().len() ==> self.spec_pixels()[t] == (
                    if (t / 4) % (w as int) < i {
                        channel_of(color, t % 4)
                    } else {
                        old(self).spec_pixels()[t]
                    }),
            decreases w - i,
        {
            let mut j: usize = 0;
            while j < h
                invariant
                    i < w,
                    j <= h,
                    self.wf(),
                    self.spec_width() == w,
                    self.spec_height() == h,
                    self.spec_depths() == old(self).spec_depths(),
                    forall|t: int|
                        0 <= t < self.spec_pixels().len() ==> self.spec_pixels()[t] == (
                        if (t / 4) % (w as int) < i || ((t / 4) % (w as int) == i && (t / 4) / (
                        w as int) < j) {
                            channel_of(color, t % 4)
                        } else {
                            old(self).spec_pixels()[t]
                        }),
                decreases h - j,
            {
                proof {
                    lemma_grid_index(i as int, j as int, w as int, h as int);
                    lemma_dims_bound(w as int, h as int);
                }
                let index = i + j * w;
                let ghost prev = self.spec_pixels();
                let res = self.set_pixel(index, color);
                proof {
                    assert(res is Ok);
                    let idx = index as int;
                    assert forall|t: int| 0 <= t < self.spec_pixels().len() implies self.spec_pixels()[t]
                        == (if (t / 4) % (w as int) < i || ((t / 4) % (w as int) == i && (t / 4) / (
                    w as int) < j + 1) {
                        channel_of(color, t % 4)
                    } else {
                        old(self).spec_pixels()[t]
                    }) by {
                        lemma_byte_decomp(t, w as int, h as int);
                        let pix = t / 4;
                        if 4 * idx <= t < 4 * idx + 4 {
                            vstd::arithmetic::div_mod::lemma_fundamental_div_mod_converse(
                                t,
                                4,
                                idx,
                                t - 4 * idx,
                            );
                            assert(pix == idx);
                            assert(t % 4 == t - 4 * pix);
                        } else {
                            assert(self.spec_pixels()[t] == prev[t]);
                            if pix == idx {
                                assert(false);
                            }
                            if (t / 4) % (w as int) == i && (t / 4) / (w as int) == j {
                                assert(pix == j * (w as int) + i);
                                assert(false);
                            }
                        }
                    }
                }
                j = j + 1;
            }
            proof {
                assert forall|t: int| 0 <= t < self.spec_pixels().len() implies self.spec_pixels()[t]
                    == (if (t / 4) % (w as int) < i + 1 {
                    channel_of(color, t % 4)
                } else {
                    old(self).spec_pixels()[t]
                }) by {
                    if h == 0 {
                        assert((w as int) * 0 * 4 == 0) by (nonlinear_arith);
                    }
                    lemma_byte_decomp(t, w as int, h as int);
                }
            }
            i = i + 1;
        }
        proof {
            assert(self.spec_pixels() =~= cleared_pixels(old(self).pixel_count(), color)) by {
                assert forall|t: int| 0 <= t < self.spec_pixels().len() implies self.spec_pixels()[t]
                    == channel_of(color, t % 4) by {
                    if w == 0 || h == 0 {
                        assert((w as int) * (h as int) * 4 == 0) by (nonlinear_arith)
                            requires
                                w == 0 || h == 0,
                        ;
                    }
                    lemma_byte_decomp(t, w as int, h as int);
                }
            }
            assert forall|i2: int| 0 <= i2 < self.pixel_count() implies self.pixel_color_at(i2)
                == color by {
                assert((4 * i2) % 4 == 0 && (4 * i2 + 1) % 4 == 1 && (4 * i2 + 2) % 4 == 2 && (4
                    * i2 + 3) % 4 == 3) by (nonlinear_arith);
            }
        }
    }

    /// Resets every depth entry to the sentinel; pixels are untouched.
    pub fn reset_z_buffer(&mut self)
        requires
            old(self).wf(),
        ensures
            final(self).wf(),
            final(self).spec_width() == old(self).spec_width(),
            final(self).spec_height() == old(self).spec_height(),
            final(self).spec_pixels() == old(self).spec_pixels(),
            final(self).spec_depths() == Seq::new(
                old(self).pixel_count() as nat,
                |t: int| DEPTH_SENTINEL,
            ),
    {
        let n = self.z_buffer.len();
        let mut i: usize = 0;
        while i < n
            invariant
                i <= n,
                self.z_buffer@.len() == n,
                self.width == old(self).width,
                self.height == old(self).height,
                self.pixels@ == old(self).pixels@,
                old(self).wf(),
                forall|t: int|
                    0 <= t < n ==> self.z_buffer@[t] == (if t < i {
                        DEPTH_SENTINEL
                    } else {
                        old(self).z_buffer@[t]
                    }),
            decreases n - i,
        {
            self.z_buffer[i] = DEPTH_SENTINEL;
            i = i + 1;
        }
        proof {
            assert(self.spec_depths() =~= Seq::new(old(self).pixel_count() as nat, |t: int| DEPTH_SENTINEL));
        }
    }

    /// Exchanges the four bytes of two distinct pixels.
    fn swap_pixel(&mut self, a: usize, b: usize)
        requires
            old(self).wf(),
            a < old(self).pixel_count(),
            b < old(self).pixel_count(),
            a != b,
        ensures
            final(self).wf(),
            final(self).spec_width() == old(self).spec_width(),
            final(self).spec_height() == old(self).spec_height(),
            final(self).spec_depths() == old(self).spec_depths(),
            forall|t: int|
                0 <= t < old(self).spec_pixels().len() ==> final(self).spec_pixels()[t] == (
                if 4 * a <= t < 4 * a + 4 {
                    old(self).spec_pixels()[t - 4 * a + 4 * b]
                } else if 4 * b <= t < 4 * b + 4 {
                    old(self).spec_pixels()[t - 4 * b + 4 * a]
                } else {
                    old(self).spec_pixels()[t]
                }),
    {
        proof {
            lemma_dims_bound(self.spec_width() as int, self.spec_height() as int);
        }
        let mut k: usize = 0;
        while k < 4
            invariant
                k <= 4,
                old(self).wf(),
                a < old(self).pixel_count(),
                b < old(self).pixel_count(),
                a != b,
                old(self).pixel_count() <= 67108864,
                a * 4 + 4 <= old(self).spec_pixels().len(),
                b * 4 + 4 <= old(self).spec_pixels().len(),
                self.wf(),
                self.spec_width() == old(self).spec_width(),
                self.spec_height() == old(self).spec_height(),
                self.spec_depths() == old(self).spec_depths(),
                forall|t: int|
                    0 <= t < old(self).spec_pixels().len() ==> self.spec_pixels()[t] == (
                    if 4 * a <= t < 4 * a + k {
                        old(self).spec_pixels()[t - 4 * a + 4 * b]
                    } else if 4 * b <= t < 4 * b + k {
                        old(self).spec_pixels()[t - 4 * b + 4 * a]
                    } else {
                        old(self).spec_pixels()[t]
                    }),
            decreases 4 - k,
        {
            let ta = a * 4 + k;
            let tb = b * 4 + k;
            let va = self.pixels[ta];
            let vb = self.pixels[tb];
            self.pixels[ta] = vb;
            self.pixels[tb] = va;
            k = k + 1;
        }
    }

    /// Reverses the row order of the framebuffer, turning the bottom-origin
    /// image into a conventional top-origin one; depths are untouched.
    pub fn flip_vertically(&mut self)
        requires
            old(self).wf(),
        ensures
            final(self).wf(),
            final(self).spec_width() == old(self).spec_width(),
            final(self).spec_height() == old(self).spec_height(),
            final(self).spec_depths() == old(self).spec_depths(),
            final(self).spec_pixels() == flipped_pixels(
                old(self).spec_pixels(),
                old(self).spec_width() as int,
                old(self).spec_height() as int,
            ),
    {
        let w = self.width;
        let h = self.height;
        proof {
            lemma_dims_bound(w as int, h as int);
            assert forall|t: int| 0 <= t < self.spec_pixels().len() implies row_pair(
                t,
                w as int,
                h as int,
            ) >= 0 by {
                if w == 0 || h == 0 {
                    assert((w as int) * (h as int) * 4 == 0) by (nonlinear_arith)
                        requires
                            w == 0 || h == 0,
                    ;
                }
                lemma_byte_decomp(t, w as int, h as int);
            }
        }
        let mut i: usize = 0;
        while i < h / 2
            invariant
                i <= h / 2,
                self.wf(),
                self.spec_width() == w,
                self.spec_height() == h,
                self.spec_depths() == old(self).spec_depths(),
                old(self).wf(),
                old(self).spec_width() == w,
                old(self).spec_height() == h,
                forall|t: int|
                    0 <= t < self.spec_pixels().len() ==> self.spec_pixels()[t] == (
                    if row_pair(t, w as int, h as int) < i {
                        old(self).spec_pixels()[flip_byte(t, w as int, h as int)]
                    } else {
                        old(self).spec_pixels()[t]
                    }),
            decreases h / 2 - i,
        {
            proof {
                vstd::arithmetic::div_mod::lemma_fundamental_div_mod(h as int, 2);
                vstd::arithmetic::div_mod::lemma_mod_division_less_than_divisor(h as int, 2);
            }
            let mut j: usize = 0;
            while j < w
                invariant
                    i < h / 2,
                    2 * i + 1 < h,
                    j <= w,
                    self.wf(),
                    self.spec_width() == w,
                    self.spec_height() == h,
                    self.spec_depths() == old(self).spec_depths(),
                    old(self).wf(),
                    old(self).spec_width() == w,
                    old(self).spec_height() == h,
                    forall|t: int|
                        0 <= t < self.spec_pixels().len() ==> self.spec_pixels()[t] == (
                        if row_pair(t, w as int, h as int) < i || (row_pair(t, w as int, h as int)
                            == i && (t / 4) % (w as int) < j) {
                            old(self).spec_pixels()[flip_byte(t, w as int, h as int)]
                        } else {
                            old(self).spec_pixels()[t]
                        }),
                decreases w - j,
            {
                proof {
                    lemma_grid_index(j as int, i as int, w as int, h as int);
                    lemma_grid_index(j as int, h as int - 1 - i, w as int, h as int);
                    lemma_dims_bound(w as int, h as int);
                }
                let cur = i * w + j;
                let opp = (h - 1 - i) * w + j;
                let ghost prev = self.spec_pixels();
                self.swap_pixel(cur, opp);
                proof {
                    let wi = w as int;
                    let hi = h as int;
                    assert forall|t: int| 0 <= t < self.spec_pixels().len() implies self.spec_pixels()[t]
                        == (if row_pair(t, wi, hi) < i || (row_pair(t, wi, hi) == i && (t / 4) % wi
                        < j + 1) {
                        old(self).spec_pixels()[flip_byte(t, wi, hi)]
                    } else {
                        old(self).spec_pixels()[t]
                    }) by {
                        lemma_byte_decomp(t, wi, hi);
                        let pix = t / 4;
                        let x = pix % wi;
                        let y = pix / wi;
                        if 4 * (cur as int) <= t < 4 * (cur as int) + 4 {
                            vstd::arithmetic::div_mod::lemma_fundamental_div_mod_converse(
                                t,
                                4,
                                cur as int,
                                t - 4 * (cur as int),
                            );
                            assert(y == i as int && x == j as int);
                            let t2 = t - 4 * (cur as int) + 4 * (opp as int);
                            lemma_byte_decomp(t2, wi, hi);
                            vstd::arithmetic::div_mod::lemma_fundamental_div_mod_converse(
                                t2,
                                4,
                                opp as int,
                                t2 - 4 * (opp as int),
                            );
                            assert(t2 == flip_byte(t, wi, hi));
                            assert(t2 / 4 == opp as int);
                            assert((t2 / 4) / wi == hi - 1 - i && (t2 / 4) % wi == j as int);
                            assert((i as int) < hi - 1 - i);
                            assert(row_pair(t2, wi, hi) == i as int);
                            assert(prev[t2] == old(self).spec_pixels()[t2]);
                        } else if 4 * (opp as int) <= t < 4 * (opp as int) + 4 {
                            vstd::arithmetic::div_mod::lemma_fundamental_div_mod_converse(
                                t,
                                4,
                                opp as int,
                                t - 4 * (opp as int),
                            );
                            assert(y == hi - 1 - i && x == j as int);
                            let t2 = t - 4 * (opp as int) + 4 * (cur as int);
                            lemma_byte_decomp(t2, wi, hi);
                            vstd::arithmetic::div_mod::lemma_fundamental_div_mod_converse(
                                t2,
                                4,
                                cur as int,
                                t2 - 4 * (cur as int),
                            );
                            assert(t2 == flip_byte(t, wi, hi));
                            assert(t2 / 4 == cur as int);
                            assert((t2 / 4) / wi == i as int && (t2 / 4) % wi == j as int);
                            assert(row_pair(t2, wi, hi) == i as int);
                            assert(prev[t2] == old(self).spec_pixels()[t2]);
                        } else {
                            assert(self.spec_pixels()[t] == prev[t]);
                            if y == i as int && x == j as int {
                                assert(pix == cur as int);
                                assert(false);
                            }
                            if y == hi - 1 - i && x == j as int {
                                assert(pix == opp as int);
                                assert(false);
                            }
                        }
                    }
                }
                j = j + 1;
            }
            proof {
                assert forall|t: int| 0 <= t < self.spec_pixels().len() implies self.spec_pixels()[t]
                    == (if row_pair(t, w as int, h as int) < i + 1 {
                    old(self).spec_pixels()[flip_byte(t, w as int, h as int)]
                } else {
                    old(self).spec_pixels()[t]
                }) by {
                    lemma_byte_decomp(t, w as int, h as int);
                }
            }
            i = i + 1;
        }
        proof {
            let wi = w as int;
            let hi = h as int;
            vstd::arithmetic::div_mod::lemma_fundamental_div_mod(hi, 2);
            vstd::arithmetic::div_mod::lemma_mod_division_less_than_divisor(hi, 2);
            assert(self.spec_pixels() =~= flipped_pixels(old(self).spec_pixels(), wi, hi)) by {
                assert forall|t: int| 0 <= t < self.spec_pixels().len() implies self.spec_pixels()[t]
                    == old(self).spec_pixels()[flip_byte(t, wi, hi)] by {
                    if w == 0 || h == 0 {
                        assert(wi * hi * 4 == 0) by (nonlinear_arith)
                            requires
                                wi == 0 || hi == 0,
                        ;
                    }
                    lemma_byte_decomp(t, wi, hi);
                    let pix = t / 4;
                    let x = pix % wi;
                    let y = pix / wi;
                    if row_pair(t, wi, hi) >= i {
                        // an untouched row is its own mirror row
                        assert(y == hi - 1 - y);
                        assert(flip_byte(t, wi, hi) == t);
                    }
                }
            }
        }
    }

    /// Copies the framebuffer into a caller-supplied RGBA byte buffer, four
    /// bytes at a time; chunks past the viewport and a trailing partial chunk
    /// are left as they were.
    pub fn write_to_buffer(&self, frame: &mut Vec<u8>)
        requires
            self.wf(),
        ensures
            final(frame)@.len() == old(frame)@.len(),
            forall|t: int|
                0 <= t < old(frame)@.len() ==> final(frame)@[t] == (
                if t < 4 * (old(frame)@.len() as int / 4) && t / 4 < self.pixel_count() {
                    self.spec_pixels()[t]
                } else {
                    old(frame)@[t]
                }),
    {
        proof {
            lemma_dims_bound(self.spec_width() as int, self.spec_height() as int);
        }
        let chunks = frame.len() / 4;
        let mut i: usize = 0;
        while i < chunks
            invariant
                i <= chunks,
                chunks == old(frame)@.len() as int / 4,
                frame@.len() == old(frame)@.len(),
                self.wf(),
                self.pixel_count() <= 67108864,
                forall|t: int|
                    0 <= t < old(frame)@.len() ==> frame@[t] == (
                    if t < 4 * (i as int) && t / 4 < self.pixel_count() {
                        self.spec_pixels()[t]
                    } else {
                        old(frame)@[t]
                    }),
            decreases chunks - i,
        {
            proof {
                assert(4 * (i as int) + 4 <= 4 * (chunks as int));
                vstd::arithmetic::div_mod::lemma_fundamental_div_mod(old(frame)@.len() as int, 4);
                vstd::arithmetic::div_mod::lemma_mod_division_less_than_divisor(
                    old(frame)@.len() as int,
                    4,
                );
            }
            if i < self.width * self.height {
                let ghost prevf = frame@;
                let mut k: usize = 0;
                while k < 4
                    invariant
                        k <= 4,
                        i < self.pixel_count(),
                        self.wf(),
                        4 * (i as int) + 4 <= frame@.len(),
                        frame@.len() == prevf.len(),
                        forall|t: int|
                            0 <= t < frame@.len() ==> frame@[t] == (
                            if 4 * (i as int) <= t < 4 * (i as int) + k {
                                self.spec_pixels()[t]
                            } else {
                                prevf[t]
                            }),
                    decreases 4 - k,
                {
                    proof {
                        lemma_dims_bound(self.spec_width() as int, self.spec_height() as int);
                    }
                    let t = i * 4 + k;
                    let v = self.pixels[t];
                    frame[t] = v;
                    k = k + 1;
                }
                proof {
                    assert forall|t: int| 0 <= t < old(frame)@.len() implies frame@[t] == (
                    if t < 4 * (i as int) + 4 && t / 4 < self.pixel_count() {
                        self.spec_pixels()[t]
                    } else {
                        old(frame)@[t]
                    }) by {
                        vstd::arithmetic::div_mod::lemma_fundamental_div_mod(t, 4);
                        vstd::arithmetic::div_mod::lemma_mod_division_less_than_divisor(t, 4);
                        if 4 * (i as int) <= t < 4 * (i as int) + 4 {
                            vstd::arithmetic::div_mod::lemma_fundamental_div_mod_converse(
                                t,
                                4,
                                i as int,
                                t - 4 * (i as int),
                            );
                        }
                    }
                }
            } else {
                proof {
                    assert forall|t: int| 0 <= t < old(frame)@.len() implies frame@[t] == (
                    if t < 4 * (i as int) + 4 && t / 4 < self.pixel_count() {
                        self.spec_pixels()[t]
                    } else {
                        old(frame)@[t]
                    }) by {
                        vstd::arithmetic::div_mod::lemma_fundamental_div_mod(t, 4);
                        vstd::arithmetic::div_mod::lemma_mod_division_less_than_divisor(t, 4);
                        if 4 * (i as int) <= t < 4 * (i as int) + 4 {
                            vstd::arithmetic::div_mod::lemma_fundamental_div_mod_converse(
                                t,
                                4,
                                i as int,
                                t - 4 * (i as int),
                            );
                        }
                    }
                }
            }
            i = i + 1;
        }
        proof {
            assert forall|t: int| 0 <= t < old(frame)@.len() implies frame@[t] == (
            if t < 4 * (old(frame)@.len() as int / 4) && t / 4 < self.pixel_count() {
                self.spec_pixels()[t]
            } else {
                old(frame)@[t]
            }) by {
            }
        }
    }
}

// ---------------------------------------------------------------------------
// Triangle rasterization: exact barycentric weights as integer fractions.
//
// The three weights of a pixel against a triangle are rationals with the
// common denominator `bary_dd`; numerators and denominator are computed
// exactly in `i128`, so the edge-inclusive inside test (all weights >= 0) and
// the interpolated depth and texture coordinates are pinned down precisely.
// ---------------------------------------------------------------------------

/// The second partial denominator: the y-extent from vertex 0 to vertex 2.
pub open spec fn bary_d2(p0: Vec3Fx, p2: Vec3Fx) -> int {
    p2.y - p0.y
}

/// The first weight's denominator: the triangle's doubled signed area term.
pub open spec fn bary_den(p0: Vec3Fx, p1: Vec3Fx, p2: Vec3Fx) -> int {
    (p1.y - p0.y) * (p2.x - p0.x) - (p1.x - p0.x) * (p2.y - p0.y)
}

/// The first weight's numerator over `bary_den`.
pub open spec fn bary_n1(p0: Vec3Fx, p2: Vec3Fx, px: int, py: int) -> int {
    p0.x * (p2.y - p0.y) + (py - p0.y) * (p2.x - p0.x) - px * (p2.y - p0.y)
}

/// Numerator of the first weight over the common denominator `bary_dd`.
pub open spec fn bary_nn1(p0: Vec3Fx, p1: Vec3Fx, p2: Vec3Fx, px: int, py: int) -> int {
    bary_n1(p0, p2, px, py) * bary_d2(p0, p2)
}

/// Numerator of the second weight over the common denominator.
pub open spec fn bary_nn2(p0: Vec3Fx, p1: Vec3Fx, p2: Vec3Fx, px: int, py: int) -> int {
    (py - p0.y) * bary_den(p0, p1, p2) - bary_n1(p0, p2, px, py) * (p1.y - p0.y)
}

/// The common denominator of the three weights.
pub open spec fn bary_dd(p0: Vec3Fx, p1: Vec3Fx, p2: Vec3Fx) -> int {
    bary_den(p0, p1, p2) * bary_d2(p0, p2)
}

/// Numerator of the third weight: the weights sum to one exactly.
pub open spec fn bary_nn3(p0: Vec3Fx, p1: Vec3Fx, p2: Vec3Fx, px: int, py: int) -> int {
    bary_dd(p0, p1, p2) - bary_nn1(p0, p1, p2, px, py) - bary_nn2(p0, p1, p2, px, py)
}

/// The fraction `n / d` is at least zero (`d != 0`).
pub open spec fn same_side(n: int, d: int) -> bool {
    if d > 0 {
        n >= 0
    } else {
        n <= 0
    }
}

/// Edge-inclusive coverage: the triangle is non-degenerate for this weight
/// basis and all three weights are at least zero.  A nonzero common
/// denominator means both factors are nonzero: the doubled-area term and the
/// y-extent divisor from vertex 0 to vertex 2 that the weight formula divides
/// by.  Pixels exactly on an edge are covered, so adjacent triangles
/// double-fill their shared edge.
pub open spec fn covers(p0: Vec3Fx, p1: Vec3Fx, p2: Vec3Fx, px: int, py: int) -> bool {
    &&& bary_dd(p0, p1, p2) != 0
    &&& same_side(bary_nn1(p0, p1, p2, px, py), bary_dd(p0, p1, p2))
    &&& same_side(bary_nn2(p0, p1, p2, px, py), bary_dd(p0, p1, p2))
    &&& same_side(bary_nn3(p0, p1, p2, px, py), bary_dd(p0, p1, p2))
}

/// Barycentric interpolation of an attribute, truncated onto the fixed grid.
pub open spec fn interp_fx(n1: int, n2: int, n3: int, d: int, a0: int, a1: int, a2: int) -> int {
    div_trunc(n1 * a0 + n2 * a1 + n3 * a2, d)
}

/// The interpolated depth of a pixel against a triangle.
pub open spec fn tri_depth(p0: Vec3Fx, p1: Vec3Fx, p2: Vec3Fx, px: int, py: int) -> int {
    interp_fx(
        bary_nn1(p0, p1, p2, px, py),
        bary_nn2(p0, p1, p2, px, py),
        bary_nn3(p0, p1, p2, px, py),
        bary_dd(p0, p1, p2),
        p0.z as int,
        p1.z as int,
        p2.z as int,
    )
}

/// The interpolated `u` texture coordinate of a pixel.
pub open spec fn tri_u(
    p0: Vec3Fx,
    p1: Vec3Fx,
    p2: Vec3Fx,
    uv0: Vec2Fx,
    uv1: Vec2Fx,
    uv2: Vec2Fx,
    px: int,
    py: int,
) -> int {
    interp_fx(
        bary_nn1(p0, p1, p2, px, py),
        bary_nn2(p0, p1, p2, px, py),
        bary_nn3(p0, p1, p2, px, py),
        bary_dd(p0, p1, p2),
        uv0.x as int,
        uv1.x as int,
        uv2.x as int,
    )
}

/// The interpolated `v` texture coordinate of a pixel.
pub open spec fn tri_v(
    p0: Vec3Fx,
    p1: Vec3Fx,
    p2: Vec3Fx,
    uv0: Vec2Fx,
    uv1: Vec2Fx,
    uv2: Vec2Fx,
    px: int,
    py: int,
) -> int {
    interp_fx(
        bary_nn1(p0, p1, p2, px, py),
        bary_nn2(p0, p1, p2, px, py),
        bary_nn3(p0, p1, p2, px, py),
        bary_dd(p0, p1, p2),
        uv0.y as int,
        uv1.y as int,
        uv2.y as int,
    )
}

/// The colour a covered, depth-winning pixel receives: the texture sampled at
/// the interpolated UV, scaled by the shading intensity.
pub open spec fn tri_shade(
    tex: Texture,
    p0: Vec3Fx,
    p1: Vec3Fx,
    p2: Vec3Fx,
    uv0: Vec2Fx,
    uv1: Vec2Fx,
    uv2: Vec2Fx,
    intensity: int,
    px: int,
    py: int,
) -> Color {
    scale_color_spec(
        sample_spec(
            tex,
            tri_u(p0, p1, p2, uv0, uv1, uv2, px, py),
            tri_v(p0, p1, p2, uv0, uv1, uv2, px, py),
        ),
        intensity,
    )
}

/// The first column of the clamped bounding box over three cell coordinates.
pub open spec fn bbox_lo(c0: int, c1: int, c2: int, limit: int) -> int {
    max_int(0, min_int(min_int(min_int(limit - 1, c0), c1), c2))
}

/// The last column of the clamped bounding box.
pub open spec fn bbox_hi(c0: int, c1: int, c2: int, limit: int) -> int {
    min_int(limit - 1, max_int(max_int(max_int(0, c0), c1), c2))
}

/// The whole-pixel cell of a fixed-point coordinate, truncated toward zero.
pub open spec fn cell_of(v: int) -> int {
    div_trunc(v, SCALE as int)
}

/// Whether pixel `(x, y)` lies in the triangle's clamped bounding box; only
/// these pixels are visited by the fill loop.
pub open spec fn in_bbox(p0: Vec3Fx, p1: Vec3Fx, p2: Vec3Fx, w: int, h: int, x: int, y: int) -> bool {
    &&& bbox_lo(cell_of(p0.x as int), cell_of(p1.x as int), cell_of(p2.x as int), w) <= x
        <= bbox_hi(cell_of(p0.x as int), cell_of(p1.x as int), cell_of(p2.x as int), w)
    &&& bbox_lo(cell_of(p0.y as int), cell_of(p1.y as int), cell_of(p2.y as int), h) <= y
        <= bbox_hi(cell_of(p0.y as int), cell_of(p1.y as int), cell_of(p2.y as int), h)
}

/// Whether rasterizing the triangle over depth buffer `depths` writes pixel
/// `idx`: the pixel is visited, covered, and its interpolated depth exceeds
/// the stored depth (greater wins).
pub open spec fn tri_hit_at(
    depths: Seq<i64>,
    w: int,
    h: int,
    p0: Vec3Fx,
    p1: Vec3Fx,
    p2: Vec3Fx,
    idx: int,
) -> bool {
    let x = idx % w;
    let y = idx / w;
    &&& in_bbox(p0, p1, p2, w, h, x, y)
    &&& covers(p0, p1, p2, x * SCALE, y * SCALE)
    &&& depths[idx] < tri_depth(p0, p1, p2, x * SCALE, y * SCALE)
}

/// The depth buffer after one triangle pass.
pub open spec fn tri_new_depths(
    depths: Seq<i64>,
    w: int,
    h: int,
    p0: Vec3Fx,
    p1: Vec3Fx,
    p2: Vec3Fx,
) -> Seq<i64> {
    Seq::new(
        depths.len(),
        |idx: int|
            if tri_hit_at(depths, w, h, p0, p1, p2, idx) {
                tri_depth(p0, p1, p2, (idx % w) * SCALE, (idx / w) * SCALE) as i64
            } else {
                depths[idx]
            },
    )
}

/// The framebuffer after one triangle pass.
pub open spec fn tri_new_pixels(
    pixels: Seq<u8>,
    depths: Seq<i64>,
    w: int,
    h: int,
    p0: Vec3Fx,
    p1: Vec3Fx,
    p2: Vec3Fx,
    uv0: Vec2Fx,
    uv1: Vec2Fx,
    uv2: Vec2Fx,
    tex: Texture,
    intensity: int,
) -> Seq<u8> {
    Seq::new(
        pixels.len(),
        |t: int|
            if tri_hit_at(depths, w, h, p0, p1, p2, t / 4) {
                channel_of(
                    tri_shade(
                        tex,
                        p0,
                        p1,
                        p2,
                        uv0,
                        uv1,
                        uv2,
                        intensity,
                        ((t / 4) % w) * SCALE,
                        ((t / 4) / w) * SCALE,
                    ),
                    t % 4,
                )
            } else {
                pixels[t]
            },
    )
}

impl Renderer {
    /// Whether rasterizing the triangle writes pixel `idx` of this (pre-draw)
    /// renderer.
    pub open spec fn tri_hit(&self, p0: Vec3Fx, p1: Vec3Fx, p2: Vec3Fx, idx: int) -> bool {
        tri_hit_at(
            self.spec_depths(),
            self.spec_width() as int,
            self.spec_height() as int,
            p0,
            p1,
            p2,
            idx,
        )
    }
}

/// How one triangle pass transforms the renderer: hit pixels take the
/// interpolated depth and the shaded sample, all else is untouched.
pub open spec fn triangle_post(
    pre: Renderer,
    post: Renderer,
    p0: Vec3Fx,
    p1: Vec3Fx,
    p2: Vec3Fx,
    uv0: Vec2Fx,
    uv1: Vec2Fx,
    uv2: Vec2Fx,
    tex: Texture,
    intensity: int,
) -> bool {
    let w = pre.spec_width() as int;
    &&& post.wf()
    &&& post.spec_width() == pre.spec_width()
    &&& post.spec_height() == pre.spec_height()
    &&& post.spec_depths() == tri_new_depths(
        pre.spec_depths(),
        pre.spec_width() as int,
        pre.spec_height() as int,
        p0,
        p1,
        p2,
    )
    &&& post.spec_pixels() == tri_new_pixels(
        pre.spec_pixels(),
        pre.spec_depths(),
        pre.spec_width() as int,
        pre.spec_height() as int,
        p0,
        p1,
        p2,
        uv0,
        uv1,
        uv2,
        tex,
        intensity,
    )
    &&& forall|idx: int|
        0 <= idx < pre.pixel_count() && pre.tri_hit(p0, p1, p2, idx) ==> {
            &&& #[trigger] post.spec_depths()[idx] == tri_depth(
                p0,
                p1,
                p2,
                (idx % w) * SCALE,
                (idx / w) * SCALE,
            )
            &&& post.pixel_color_at(idx) == tri_shade(
                tex,
                p0,
                p1,
                p2,
                uv0,
                uv1,
                uv2,
                intensity,
                (idx % w) * SCALE,
                (idx / w) * SCALE,
            )
        }
    &&& forall|idx: int|
        0 <= idx < pre.pixel_count() && !pre.tri_hit(p0, p1, p2, idx)
            ==> #[trigger] post.spec_depths()[idx] == pre.spec_depths()[idx]
    &&& forall|t: int|
        0 <= t < pre.spec_pixels().len() && !pre.tri_hit(p0, p1, p2, t / 4)
            ==> #[trigger] post.spec_pixels()[t] == pre.spec_pixels()[t]
}

/// Magnitude bounds for every term of the barycentric computation, given
/// coordinates within `COORD_LIM`; everything fits comfortably in `i128`.
proof fn lemma_bary_bounds(p0: Vec3Fx, p1: Vec3Fx, p2: Vec3Fx, px: int, py: int)
    requires
        p0.bounded(),
        p1.bounded(),
        p2.bounded(),
        abs_int(px) <= COORD_LIM,
        abs_int(py) <= COORD_LIM,
    ensures
        abs_int(bary_d2(p0, p2)) <= 1073741824,
        abs_int((p1.y - p0.y) * (p2.x - p0.x)) <= 1152921504606846976,
        abs_int((p1.x - p0.x) * (p2.y - p0.y)) <= 1152921504606846976,
        abs_int(bary_den(p0, p1, p2)) <= 2305843009213693952,
        abs_int(p0.x * (p2.y - p0.y)) <= 1152921504606846976,
        abs_int((py - p0.y) * (p2.x - p0.x)) <= 1152921504606846976,
        abs_int(px * (p2.y - p0.y)) <= 1152921504606846976,
        abs_int(bary_n1(p0, p2, px, py)) <= 4611686018427387904,
        abs_int(bary_nn1(p0, p1, p2, px, py)) <= 4951760157141521099596496896,
        abs_int((py - p0.y) * bary_den(p0, p1, p2)) <= 2475880078570760549798248448,
        abs_int(bary_n1(p0, p2, px, py) * (p1.y - p0.y)) <= 4951760157141521099596496896,
        abs_int(bary_nn2(p0, p1, p2, px, py)) <= 9903520314283042199192993792,
        abs_int(bary_dd(p0, p1, p2)) <= 2475880078570760549798248448,
        abs_int(bary_nn3(p0, p1, p2, px, py)) <= 19807040628566084398385987584,
{
    let b30 = 1073741824int;
    let b61 = 2305843009213693952int;
    let b62 = 4611686018427387904int;
    lemma_mul_abs_bound(p1.y - p0.y, p2.x - p0.x, b30, b30);
    lemma_mul_abs_bound(p1.x - p0.x, p2.y - p0.y, b30, b30);
    lemma_mul_abs_bound(p0.x as int, p2.y - p0.y, b30, b30);
    lemma_mul_abs_bound(py - p0.y, p2.x - p0.x, b30, b30);
    lemma_mul_abs_bound(px, p2.y - p0.y, b30, b30);
    assert(1073741824int * 1073741824 == 1152921504606846976) by (nonlinear_arith);
    lemma_mul_abs_bound(bary_n1(p0, p2, px, py), bary_d2(p0, p2), b62, b30);
    lemma_mul_abs_bound(py - p0.y, bary_den(p0, p1, p2), b30, b61);
    lemma_mul_abs_bound(bary_n1(p0, p2, px, py), p1.y - p0.y, b62, b30);
    lemma_mul_abs_bound(bary_den(p0, p1, p2), bary_d2(p0, p2), b61, b30);
    assert(4611686018427387904int * 1073741824 == 4951760157141521099596496896) by (nonlinear_arith);
    assert(1073741824int * 2305843009213693952 == 2475880078570760549798248448) by (nonlinear_arith);
    assert(2305843009213693952int * 1073741824 == 2475880078570760549798248448) by (nonlinear_arith);
}

/// A convex combination of bounded attributes, truncated, stays bounded.
proof fn lemma_interp_in_range(n1: int, n2: int, n3: int, d: int, a0: int, a1: int, a2: int)
    requires
        n1 + n2 + n3 == d,
        d != 0,
        same_side(n1, d),
        same_side(n2, d),
        same_side(n3, d),
        abs_int(a0) <= COORD_LIM,
        abs_int(a1) <= COORD_LIM,
        abs_int(a2) <= COORD_LIM,
    ensures
        abs_int(interp_fx(n1, n2, n3, d, a0, a1, a2)) <= COORD_LIM,
{
    let c = COORD_LIM as int;
    let s = n1 * a0 + n2 * a1 + n3 * a2;
    if d > 0 {
        assert(-(d * c) <= s <= d * c) by (nonlinear_arith)
            requires
                0 <= n1,
                0 <= n2,
                0 <= n3,
                n1 + n2 + n3 == d,
                -c <= a0 <= c,
                -c <= a1 <= c,
                -c <= a2 <= c,
                s == n1 * a0 + n2 * a1 + n3 * a2,
        ;
        assert(abs_int(s) <= c * abs_int(d)) by (nonlinear_arith)
            requires
                d > 0,
                -(d * c) <= s <= d * c,
                c > 0,
        ;
    } else {
        assert(d * c <= s <= -(d * c)) by (nonlinear_arith)
            requires
                n1 <= 0,
                n2 <= 0,
                n3 <= 0,
                n1 + n2 + n3 == d,
                -c <= a0 <= c,
                -c <= a1 <= c,
                -c <= a2 <= c,
                s == n1 * a0 + n2 * a1 + n3 * a2,
        ;
        assert(abs_int(s) <= c * abs_int(d)) by (nonlinear_arith)
            requires
                d < 0,
                d * c <= s <= -(d * c),
                c > 0,
        ;
    }
    lemma_div_trunc_bound(s, d, c);
}

/// The interpolation's products and sum fit in `i128`.
proof fn lemma_interp_fits(n1: int, n2: int, n3: int, a0: int, a1: int, a2: int)
    requires
        abs_int(n1) <= 19807040628566084398385987584,
        abs_int(n2) <= 19807040628566084398385987584,
        abs_int(n3) <= 19807040628566084398385987584,
        abs_int(a0) <= COORD_LIM,
        abs_int(a1) <= COORD_LIM,
        abs_int(a2) <= COORD_LIM,
    ensures
        abs_int(n1 * a0) <= 10633823966279326983230456482242756608,
        abs_int(n2 * a1) <= 10633823966279326983230456482242756608,
        abs_int(n3 * a2) <= 10633823966279326983230456482242756608,
        abs_int(n1 * a0 + n2 * a1 + n3 * a2) <= 31901471898837980949691369446728269824,
{
    let bn = 19807040628566084398385987584int;
    let c = COORD_LIM as int;
    lemma_mul_abs_bound(n1, a0, bn, c);
    lemma_mul_abs_bound(n2, a1, bn, c);
    lemma_mul_abs_bound(n3, a2, bn, c);
    assert(19807040628566084398385987584int * 536870912 == 10633823966279326983230456482242756608) by (nonlinear_arith);
}

/// A pixel index decomposes into a column below `w` and a row below `h`.
pub proof fn lemma_pixel_coords(pix: int, w: int, h: int)
    requires
        0 < w,
        0 < h,
        0 <= pix < w * h,
    ensures
        0 <= pix % w < w,
        0 <= pix / w < h,
        pix == (pix / w) * w + (pix % w),
{
    vstd::arithmetic::div_mod::lemma_fundamental_div_mod(pix, w);
    vstd::arithmetic::div_mod::lemma_mod_division_less_than_divisor(pix, w);
    vstd::arithmetic::div_mod::lemma_div_pos_is_pos(pix, w);
    vstd::arithmetic::mul::lemma_mul_is_commutative(w, pix / w);
    if pix / w >= h {
        vstd::arithmetic::mul::lemma_mul_inequality(h, pix / w, w);
        assert(h * w <= (pix / w) * w);
        assert((pix / w) * w <= pix) by (nonlinear_arith)
            requires
                pix == (pix / w) * w + (pix % w),
                pix % w >= 0,
        ;
        assert(w * h == h * w) by (nonlinear_arith);
    }
}

impl Renderer {
    /// The numerators and common denominator of the three barycentric weights
    /// of pixel `(px, py)` (fixed point) against the triangle, exactly.
    fn barycentric(&self, p0: Vec3Fx, p1: Vec3Fx, p2: Vec3Fx, px: i64, py: i64) -> (r: (
        i128,
        i128,
        i128,
        i128,
    ))
        requires
            p0.bounded(),
            p1.bounded(),
            p2.bounded(),
            abs_int(px as int) <= COORD_LIM,
            abs_int(py as int) <= COORD_LIM,
        ensures
            r.0 == bary_nn1(p0, p1, p2, px as int, py as int),
            r.1 == bary_nn2(p0, p1, p2, px as int, py as int),
            r.2 == bary_nn3(p0, p1, p2, px as int, py as int),
            r.3 == bary_dd(p0, p1, p2),
    {
        proof {
            lemma_bary_bounds(p0, p1, p2, px as int, py as int);
        }
        let p0x = p0.x as i128;
        let p0y = p0.y as i128;
        let p1x = p1.x as i128;
        let p1y = p1.y as i128;
        let p2x = p2.x as i128;
        let p2y = p2.y as i128;
        let pxi = px as i128;
        let pyi = py as i128;
        let d2 = p2y - p0y;
        let den = (p1y - p0y) * (p2x - p0x) - (p1x - p0x) * (p2y - p0y);
        let n1 = p0x * d2 + (pyi - p0y) * (p2x - p0x) - pxi * d2;
        let nn1 = n1 * d2;
        let nn2 = (pyi - p0y) * den - n1 * (p1y - p0y);
        let dd = den * d2;
        let nn3 = dd - nn1 - nn2;
        (nn1, nn2, nn3, dd)
    }

    /// Barycentric interpolation of the two texture coordinates.
    fn interpolate_uv(
        &self,
        uv0: Vec2Fx,
        uv1: Vec2Fx,
        uv2: Vec2Fx,
        nn1: i128,
        nn2: i128,
        nn3: i128,
        dd: i128,
    ) -> (r: (i64, i64))
        requires
            uv0.bounded(),
            uv1.bounded(),
            uv2.bounded(),
            dd != 0,
            nn1 + nn2 + nn3 == dd,
            same_side(nn1 as int, dd as int),
            same_side(nn2 as int, dd as int),
            same_side(nn3 as int, dd as int),
            abs_int(nn1 as int) <= 19807040628566084398385987584,
            abs_int(nn2 as int) <= 19807040628566084398385987584,
            abs_int(nn3 as int) <= 19807040628566084398385987584,
        ensures
            r.0 == interp_fx(
                nn1 as int,
                nn2 as int,
                nn3 as int,
                dd as int,
                uv0.x as int,
                uv1.x as int,
                uv2.x as int,
            ),
            r.1 == interp_fx(
                nn1 as int,
                nn2 as int,
                nn3 as int,
                dd as int,
                uv0.y as int,
                uv1.y as int,
                uv2.y as int,
            ),
    {
        proof {
            lemma_interp_fits(
                nn1 as int,
                nn2 as int,
                nn3 as int,
                uv0.x as int,
                uv1.x as int,
                uv2.x as int,
            );
            lemma_interp_fits(
                nn1 as int,
                nn2 as int,
                nn3 as int,
                uv0.y as int,
                uv1.y as int,
                uv2.y as int,
            );
            lemma_interp_in_range(
                nn1 as int,
                nn2 as int,
                nn3 as int,
                dd as int,
                uv0.x as int,
                uv1.x as int,
                uv2.x as int,
            );
            lemma_interp_in_range(
                nn1 as int,
                nn2 as int,
                nn3 as int,
                dd as int,
                uv0.y as int,
                uv1.y as int,
                uv2.y as int,
            );
        }
        let un = nn1 * (uv0.x as i128) + nn2 * (uv1.x as i128) + nn3 * (uv2.x as i128);
        let vn = nn1 * (uv0.y as i128) + nn2 * (uv1.y as i128) + nn3 * (uv2.y as i128);
        let u = div_i128(un, dd) as i64;
        let v = div_i128(vn, dd) as i64;
        (u, v)
    }

    /// Scan-converts one screen-space triangle: every pixel centre in the
    /// clamped bounding box whose barycentric weights are all at least zero
    /// and whose interpolated depth exceeds the stored depth receives the
    /// shaded texture sample and the new depth.
    pub fn triangle2d(
        &mut self,
        p0: Vec3Fx,
        p1: Vec3Fx,
        p2: Vec3Fx,
        uv0: Vec2Fx,
        uv1: Vec2Fx,
        uv2: Vec2Fx,
        texture: &Texture,
        intensity: i64,
    )
        requires
            old(self).wf(),
            texture.wf(),
            p0.bounded(),
            p1.bounded(),
            p2.bounded(),
            uv0.bounded(),
            uv1.bounded(),
            uv2.bounded(),
            0 <= intensity <= SCALE,
        ensures
            triangle_post(
                *old(self),
                *final(self),
                p0,
                p1,
                p2,
                uv0,
                uv1,
                uv2,
                *texture,
                intensity as int,
            ),
    {
        let w = self.width;
        let h = self.height;
        let wi = w as i64;
        let hi = h as i64;
        proof {
            lemma_dims_bound(w as int, h as int);
        }
        let tx0 = cell(p0.x);
        let tx1 = cell(p1.x);
        let tx2 = cell(p2.x);
        let ty0 = cell(p0.y);
        let ty1 = cell(p1.y);
        let ty2 = cell(p2.y);
        let xlo = max_i64(0, min_i64(min_i64(min_i64(wi - 1, tx0), tx1), tx2));
        let xhi = min_i64(wi - 1, max_i64(max_i64(max_i64(0, tx0), tx1), tx2));
        let ylo = max_i64(0, min_i64(min_i64(min_i64(hi - 1, ty0), ty1), ty2));
        let yhi = min_i64(hi - 1, max_i64(max_i64(max_i64(0, ty0), ty1), ty2));
        let ghost wint = w as int;
        let ghost hint = h as int;
        let mut x = xlo;
        while x <= xhi
            invariant
                xlo <= x,
                x <= xhi + 1,
                xlo == bbox_lo(cell_of(p0.x as int), cell_of(p1.x as int), cell_of(p2.x as int), wint),
                xhi == bbox_hi(cell_of(p0.x as int), cell_of(p1.x as int), cell_of(p2.x as int), wint),
                ylo == bbox_lo(cell_of(p0.y as int), cell_of(p1.y as int), cell_of(p2.y as int), hint),
                yhi == bbox_hi(cell_of(p0.y as int), cell_of(p1.y as int), cell_of(p2.y as int), hint),
                0 <= xlo,
                xhi < wint,
                0 <= ylo,
                yhi < hint,
                wint == w,
                hint == h,
                wi == w,
                hi == h,
                old(self).wf(),
                old(self).spec_width() == w,
                old(self).spec_height() == h,
                self.wf(),
                self.spec_width() == w,
                self.spec_height() == h,
                p0.bounded(),
                p1.bounded(),
                p2.bounded(),
                uv0.bounded(),
                uv1.bounded(),
                uv2.bounded(),
                texture.wf(),
                0 <= intensity <= SCALE,
                forall|idx: int|
                    0 <= idx < old(self).pixel_count() ==> #[trigger] self.spec_depths()[idx] == (
                    if tri_visited(p0, p1, p2, wint, hint, idx, x as int, 0) && old(self).tri_hit(
                        p0,
                        p1,
                        p2,
                        idx,
                    ) {
                        tri_depth(p0, p1, p2, (idx % wint) * SCALE, (idx / wint) * SCALE)
                    } else {
                        old(self).spec_depths()[idx] as int
                    }),
                forall|t: int|
                    0 <= t < old(self).spec_pixels().len() ==> #[trigger] self.spec_pixels()[t] == (
                    if tri_visited(p0, p1, p2, wint, hint, t / 4, x as int, 0) && old(self).tri_hit(
                        p0,
                        p1,
                        p2,
                        t / 4,
                    ) {
                        channel_of(
                            tri_shade(
                                *texture,
                                p0,
                                p1,
                                p2,
                                uv0,
                                uv1,
                                uv2,
                                intensity as int,
                                ((t / 4) % wint) * SCALE,
                                ((t / 4) / wint) * SCALE,
                            ),
                            t % 4,
                        )
                    } else {
                        old(self).spec_pixels()[t]
                    }),
            decreases xhi + 1 - x,
        {
            let mut y = ylo;
            while y <= yhi
                invariant
                    xlo <= x <= xhi,
                    ylo <= y,
                    y <= yhi + 1,
                    xlo == bbox_lo(
                        cell_of(p0.x as int),
                        cell_of(p1.x as int),
                        cell_of(p2.x as int),
                        wint,
                    ),
                    xhi == bbox_hi(
                        cell_of(p0.x as int),
                        cell_of(p1.x as int),
                        cell_of(p2.x as int),
                        wint,
                    ),
                    ylo == bbox_lo(
                        cell_of(p0.y as int),
                        cell_of(p1.y as int),
                        cell_of(p2.y as int),
                        hint,
                    ),
                    yhi == bbox_hi(
                        cell_of(p0.y as int),
                        cell_of(p1.y as int),
                        cell_of(p2.y as int),
                        hint,
                    ),
                    0 <= xlo,
                    xhi < wint,
                    0 <= ylo,
                    yhi < hint,
                    wint == w,
                    hint == h,
                    wi == w,
                    hi == h,
                    old(self).wf(),
                    old(self).spec_width() == w,
                    old(self).spec_height() == h,
                    self.wf(),
                    self.spec_width() == w,
                    self.spec_height() == h,
                    p0.bounded(),
                    p1.bounded(),
                    p2.bounded(),
                    uv0.bounded(),
                    uv1.bounded(),
                    uv2.bounded(),
                    texture.wf(),
                    0 <= intensity <= SCALE,
                    forall|idx: int|
                        0 <= idx < old(self).pixel_count() ==> #[trigger] self.spec_depths()[idx]
                            == (if tri_visited(p0, p1, p2, wint, hint, idx, x as int, y as int)
                            && old(self).tri_hit(p0, p1, p2, idx) {
                            tri_depth(p0, p1, p2, (idx % wint) * SCALE, (idx / wint) * SCALE)
                        } else {
                            old(self).spec_depths()[idx] as int
                        }),
                    forall|t: int|
                        0 <= t < old(self).spec_pixels().len() ==> #[trigger] self.spec_pixels()[t]
                            == (if tri_visited(p0, p1, p2, wint, hint, t / 4, x as int, y as int)
                            && old(self).tri_hit(p0, p1, p2, t / 4) {
                            channel_of(
                                tri_shade(
                                    *texture,
                                    p0,
                                    p1,
                                    p2,
                                    uv0,
                                    uv1,
                                    uv2,
                                    intensity as int,
                                    ((t / 4) % wint) * SCALE,
                                    ((t / 4) / wint) * SCALE,
                                ),
                                t % 4,
                            )
                        } else {
                            old(self).spec_pixels()[t]
                        }),
                decreases yhi + 1 - y,
            {
                proof {
                    lemma_grid_index(x as int, y as int, wint, hint);
                    lemma_dims_bound(wint, hint);
                    assert(abs_int((x * SCALE) as int) <= COORD_LIM) by {
                        lemma_mul_abs_bound(x as int, SCALE as int, 8192, 65536);
                        assert(8192int * 65536 == 536870912) by (nonlinear_arith);
                    }
                    assert(abs_int((y * SCALE) as int) <= COORD_LIM) by {
                        lemma_mul_abs_bound(y as int, SCALE as int, 8192, 65536);
                        assert(8192int * 65536 == 536870912) by (nonlinear_arith);
                    }
                }
                let px = x * SCALE;
                let py = y * SCALE;
                let (nn1, nn2, nn3, dd) = self.barycentric(p0, p1, p2, px, py);
                let is_inside = dd != 0 && side_ok(nn1, dd) && side_ok(nn2, dd) && side_ok(
                    nn3,
                    dd,
                );
                let ghost pxi = px as int;
                let ghost pyi = py as int;
                proof {
                    assert(is_inside == covers(p0, p1, p2, pxi, pyi));
                }
                let idx = (x + y * wi) as usize;
                let ghost idxi = idx as int;
                let ghost prev_z = self.spec_depths();
                let ghost prev_p = self.spec_pixels();
                if is_inside {
                    proof {
                        lemma_bary_bounds(p0, p1, p2, pxi, pyi);
                        lemma_interp_fits(
                            nn1 as int,
                            nn2 as int,
                            nn3 as int,
                            p0.z as int,
                            p1.z as int,
                            p2.z as int,
                        );
                        lemma_interp_in_range(
                            nn1 as int,
                            nn2 as int,
                            nn3 as int,
                            dd as int,
                            p0.z as int,
                            p1.z as int,
                            p2.z as int,
                        );
                    }
                    let zn = nn1 * (p0.z as i128) + nn2 * (p1.z as i128) + nn3 * (p2.z as i128);
                    let z_fx = div_i128(zn, dd) as i64;
                    proof {
                        assert(z_fx as int == tri_depth(p0, p1, p2, pxi, pyi));
                    }
                    if self.z_buffer[idx] < z_fx {
                        self.z_buffer[idx] = z_fx;
                        let (u, v) = self.interpolate_uv(uv0, uv1, uv2, nn1, nn2, nn3, dd);
                        let color = texture.sample(u, v);
                        let color = color.scale_by_intensity(intensity);
                        proof {
                            assert(color == tri_shade(
                                *texture,
                                p0,
                                p1,
                                p2,
                                uv0,
                                uv1,
                                uv2,
                                intensity as int,
                                pxi,
                                pyi,
                            ));
                        }
                        let res = self.set_pixel(idx, color);
                        proof {
                            assert(res is Ok);
                            assert(old(self).tri_hit(p0, p1, p2, idxi)) by {
                                assert(prev_z[idxi] == old(self).spec_depths()[idxi]);
                            }
                            lemma_triangle_step(
                                *old(self),
                                *self,
                                prev_z,
                                prev_p,
                                p0,
                                p1,
                                p2,
                                uv0,
                                uv1,
                                uv2,
                                *texture,
                                intensity as int,
                                x as int,
                                y as int,
                                true,
                                color,
                                z_fx as int,
                            );
                        }
                    } else {
                        proof {
                            assert(!old(self).tri_hit(p0, p1, p2, idxi)) by {
                                assert(prev_z[idxi] == old(self).spec_depths()[idxi]);
                            }
                            lemma_triangle_skip(
                                *old(self),
                                *self,
                                p0,
                                p1,
                                p2,
                                *texture,
                                uv0,
                                uv1,
                                uv2,
                                intensity as int,
                                x as int,
                                y as int,
                            );
                        }
                    }
                } else {
                    proof {
                        assert(!old(self).tri_hit(p0, p1, p2, idxi));
                        lemma_triangle_skip(
                            *old(self),
                            *self,
                            p0,
                            p1,
                            p2,
                            *texture,
                            uv0,
                            uv1,
                            uv2,
                            intensity as int,
                            x as int,
                            y as int,
                        );
                    }
                }
                y = y + 1;
            }
            proof {
                assert forall|idx: int| 0 <= idx < old(self).pixel_count() implies (#[trigger] tri_visited(
                    p0,
                    p1,
                    p2,
                    wint,
                    hint,
                    idx,
                    x as int,
                    yhi as int + 1,
                ) == tri_visited(p0, p1, p2, wint, hint, idx, x as int + 1, 0)) by {
                    lemma_pixel_coords(idx, wint, hint);
                }
                assert forall|t: int| 0 <= t < old(self).spec_pixels().len() implies (#[trigger] tri_visited(
                    p0,
                    p1,
                    p2,
                    wint,
                    hint,
                    t / 4,
                    x as int,
                    yhi as int + 1,
                ) == tri_visited(p0, p1, p2, wint, hint, t / 4, x as int + 1, 0)) by {
                    lemma_byte_decomp(t, wint, hint);
                }
            }
            x = x + 1;
        }
        proof {
            assert forall|idx: int|
                0 <= idx < old(self).pixel_count() && old(self).tri_hit(p0, p1, p2, idx) implies {
                &&& #[trigger] self.spec_depths()[idx] == tri_depth(
                    p0,
                    p1,
                    p2,
                    (idx % wint) * SCALE,
                    (idx / wint) * SCALE,
                )
                &&& self.pixel_color_at(idx) == tri_shade(
                    *texture,
                    p0,
                    p1,
                    p2,
                    uv0,
                    uv1,
                    uv2,
                    intensity as int,
                    (idx % wint) * SCALE,
                    (idx / wint) * SCALE,
                )
            } by {
                lemma_pixel_coords(idx, wint, hint);
                assert(tri_visited(p0, p1, p2, wint, hint, idx, x as int, 0));
                assert((4 * idx) % 4 == 0 && (4 * idx + 1) % 4 == 1 && (4 * idx + 2) % 4 == 2 && (
                4 * idx + 3) % 4 == 3) by (nonlinear_arith);
                assert((4 * idx) / 4 == idx && (4 * idx + 1) / 4 == idx && (4 * idx + 2) / 4 == idx
                    && (4 * idx + 3) / 4 == idx) by (nonlinear_arith);
            }
            assert forall|idx: int|
                0 <= idx < old(self).pixel_count() && !old(self).tri_hit(
                    p0,
                    p1,
                    p2,
                    idx,
                ) implies #[trigger] self.spec_depths()[idx] == old(self).spec_depths()[idx] by {}
            assert forall|t: int|
                0 <= t < old(self).spec_pixels().len() && !old(self).tri_hit(
                    p0,
                    p1,
                    p2,
                    t / 4,
                ) implies #[trigger] self.spec_pixels()[t] == old(self).spec_pixels()[t] by {}
            assert(self.spec_depths() =~= tri_new_depths(
                old(self).spec_depths(),
                wint,
                hint,
                p0,
                p1,
                p2,
            ));
            assert(self.spec_pixels() =~= tri_new_pixels(
                old(self).spec_pixels(),
                old(self).spec_depths(),
                wint,
                hint,
                p0,
                p1,
                p2,
                uv0,
                uv1,
                uv2,
                *texture,
                intensity as int,
            ));
        }
    }
}

/// Whether the fill loops, at outer position `cx` and inner position `cy`,
/// have already visited the pixel `idx`: it lies in the clamped bounding box
/// and strictly precedes `(cx, cy)` in the column-major scan.
pub open spec fn tri_visited(
    p0: Vec3Fx,
    p1: Vec3Fx,
    p2: Vec3Fx,
    w: int,
    h: int,
    idx: int,
    cx: int,
    cy: int,
) -> bool {
    let x = idx % w;
    let y = idx / w;
    &&& in_bbox(p0, p1, p2, w, h, x, y)
    &&& (x < cx || (x == cx && y < cy))
}

/// One write step of the fill loop preserves the pointwise invariant.
#[verifier::spinoff_prover]
proof fn lemma_triangle_step(
    pre: Renderer,
    cur: Renderer,
    prev_z: Seq<i64>,
    prev_p: Seq<u8>,
    p0: Vec3Fx,
    p1: Vec3Fx,
    p2: Vec3Fx,
    uv0: Vec2Fx,
    uv1: Vec2Fx,
    uv2: Vec2Fx,
    tex: Texture,
    intensity: int,
    x: int,
    y: int,
    hit: bool,
    color: Color,
    z_new: int,
)
    requires
        pre.wf(),
        cur.wf(),
        cur.spec_width() == pre.spec_width(),
        cur.spec_height() == pre.spec_height(),
        0 <= x < pre.spec_width() as int,
        0 <= y < pre.spec_height() as int,
        prev_z.len() == pre.spec_depths().len(),
        prev_p.len() == pre.spec_pixels().len(),
        // the invariant held before this pixel was written
        forall|idx: int|
            0 <= idx < pre.pixel_count() ==> #[trigger] prev_z[idx] == (if tri_visited(
                p0,
                p1,
                p2,
                pre.spec_width() as int,
                pre.spec_height() as int,
                idx,
                x,
                y,
            ) && pre.tri_hit(p0, p1, p2, idx) {
                tri_depth(
                    p0,
                    p1,
                    p2,
                    (idx % (pre.spec_width() as int)) * SCALE,
                    (idx / (pre.spec_width() as int)) * SCALE,
                )
            } else {
                pre.spec_depths()[idx] as int
            }),
        forall|t: int|
            0 <= t < pre.spec_pixels().len() ==> #[trigger] prev_p[t] == (if tri_visited(
                p0,
                p1,
                p2,
                pre.spec_width() as int,
                pre.spec_height() as int,
                t / 4,
                x,
                y,
            ) && pre.tri_hit(p0, p1, p2, t / 4) {
                channel_of(
                    tri_shade(
                        tex,
                        p0,
                        p1,
                        p2,
                        uv0,
                        uv1,
                        uv2,
                        intensity,
                        ((t / 4) % (pre.spec_width() as int)) * SCALE,
                        ((t / 4) / (pre.spec_width() as int)) * SCALE,
                    ),
                    t % 4,
                )
            } else {
                pre.spec_pixels()[t]
            }),
        hit,
        pre.tri_hit(p0, p1, p2, x + y * (pre.spec_width() as int)),
        in_bbox(p0, p1, p2, pre.spec_width() as int, pre.spec_height() as int, x, y),
        i64::MIN <= z_new <= i64::MAX,
        z_new == tri_depth(p0, p1, p2, x * SCALE, y * SCALE),
        color == tri_shade(tex, p0, p1, p2, uv0, uv1, uv2, intensity, x * SCALE, y * SCALE),
        cur.spec_depths() == prev_z.update(x + y * (pre.spec_width() as int), z_new as i64),
        cur.spec_pixels() == with_pixel(prev_p, x + y * (pre.spec_width() as int), color),
    ensures
        forall|idx: int|
            0 <= idx < pre.pixel_count() ==> #[trigger] cur.spec_depths()[idx] == (if tri_visited(
                p0,
                p1,
                p2,
                pre.spec_width() as int,
                pre.spec_height() as int,
                idx,
                x,
                y + 1,
            ) && pre.tri_hit(p0, p1, p2, idx) {
                tri_depth(
                    p0,
                    p1,
                    p2,
                    (idx % (pre.spec_width() as int)) * SCALE,
                    (idx / (pre.spec_width() as int)) * SCALE,
                )
            } else {
                pre.spec_depths()[idx] as int
            }),
        forall|t: int|
            0 <= t < pre.spec_pixels().len() ==> #[trigger] cur.spec_pixels()[t] == (if tri_visited(
                p0,
                p1,
                p2,
                pre.spec_width() as int,
                pre.spec_height() as int,
                t / 4,
                x,
                y + 1,
            ) && pre.tri_hit(p0, p1, p2, t / 4) {
                channel_of(
                    tri_shade(
                        tex,
                        p0,
                        p1,
                        p2,
                        uv0,
                        uv1,
                        uv2,
                        intensity,
                        ((t / 4) % (pre.spec_width() as int)) * SCALE,
                        ((t / 4) / (pre.spec_width() as int)) * SCALE,
                    ),
                    t % 4,
                )
            } else {
                pre.spec_pixels()[t]
            }),
{
    let w = pre.spec_width() as int;
    let h = pre.spec_height() as int;
    let cell = x + y * w;
    lemma_grid_index(x, y, w, h);
    assert forall|idx: int| 0 <= idx < pre.pixel_count() implies #[trigger] cur.spec_depths()[idx]
        == (if tri_visited(p0, p1, p2, w, h, idx, x, y + 1) && pre.tri_hit(p0, p1, p2, idx) {
        tri_depth(p0, p1, p2, (idx % w) * SCALE, (idx / w) * SCALE)
    } else {
        pre.spec_depths()[idx] as int
    }) by {
        lemma_pixel_coords(idx, w, h);
        if idx == cell {
            assert(idx % w == x && idx / w == y);
        } else {
            if idx % w == x && idx / w == y {
                assert(idx == cell);
            }
        }
    }
    assert forall|t: int| 0 <= t < pre.spec_pixels().len() implies #[trigger] cur.spec_pixels()[t]
        == (if tri_visited(p0, p1, p2, w, h, t / 4, x, y + 1) && pre.tri_hit(p0, p1, p2, t / 4) {
        channel_of(
            tri_shade(
                tex,
                p0,
                p1,
                p2,
                uv0,
                uv1,
                uv2,
                intensity,
                ((t / 4) % w) * SCALE,
                ((t / 4) / w) * SCALE,
            ),
            t % 4,
        )
    } else {
        pre.spec_pixels()[t]
    }) by {
        lemma_byte_decomp(t, w, h);
        let pix = t / 4;
        if 4 * cell <= t < 4 * cell + 4 {
            vstd::arithmetic::div_mod::lemma_fundamental_div_mod_converse(t, 4, cell, t - 4 * cell);
            assert(pix == cell);
            assert(t % 4 == t - 4 * cell);
        } else {
            assert(cur.spec_pixels()[t] == prev_p[t]);
            if pix == cell {
                assert(false);
            }
            if pix % w == x && pix / w == y {
                assert(pix == cell);
                assert(false);
            }
        }
    }
}

/// A skipped pixel (not covered, or losing the depth test) leaves the
/// pointwise invariant intact as the scan advances.
proof fn lemma_triangle_skip(
    pre: Renderer,
    cur: Renderer,
    p0: Vec3Fx,
    p1: Vec3Fx,
    p2: Vec3Fx,
    tex: Texture,
    uv0: Vec2Fx,
    uv1: Vec2Fx,
    uv2: Vec2Fx,
    intensity: int,
    x: int,
    y: int,
)
    requires
        pre.wf(),
        cur.wf(),
        0 <= x < pre.spec_width() as int,
        0 <= y < pre.spec_height() as int,
        !pre.tri_hit(p0, p1, p2, x + y * (pre.spec_width() as int)),
        forall|idx: int|
            0 <= idx < pre.pixel_count() ==> #[trigger] cur.spec_depths()[idx] == (if tri_visited(
                p0,
                p1,
                p2,
                pre.spec_width() as int,
                pre.spec_height() as int,
                idx,
                x,
                y,
            ) && pre.tri_hit(p0, p1, p2, idx) {
                tri_depth(
                    p0,
                    p1,
                    p2,
                    (idx % (pre.spec_width() as int)) * SCALE,
                    (idx / (pre.spec_width() as int)) * SCALE,
                )
            } else {
                pre.spec_depths()[idx] as int
            }),
        forall|t: int|
            0 <= t < pre.spec_pixels().len() ==> #[trigger] cur.spec_pixels()[t] == (if tri_visited(
                p0,
                p1,
                p2,
                pre.spec_width() as int,
                pre.spec_height() as int,
                t / 4,
                x,
                y,
            ) && pre.tri_hit(p0, p1, p2, t / 4) {
                channel_of(
                    tri_shade(
                        tex,
                        p0,
                        p1,
                        p2,
                        uv0,
                        uv1,
                        uv2,
                        intensity,
                        ((t / 4) % (pre.spec_width() as int)) * SCALE,
                        ((t / 4) / (pre.spec_width() as int)) * SCALE,
                    ),
                    t % 4,
                )
            } else {
                pre.spec_pixels()[t]
            }),
    ensures
        forall|idx: int|
            0 <= idx < pre.pixel_count() ==> #[trigger] cur.spec_depths()[idx] == (if tri_visited(
                p0,
                p1,
                p2,
                pre.spec_width() as int,
                pre.spec_height() as int,
                idx,
                x,
                y + 1,
            ) && pre.tri_hit(p0, p1, p2, idx) {
                tri_depth(
                    p0,
                    p1,
                    p2,
                    (idx % (pre.spec_width() as int)) * SCALE,
                    (idx / (pre.spec_width() as int)) * SCALE,
                )
            } else {
                pre.spec_depths()[idx] as int
            }),
        forall|t: int|
            0 <= t < pre.spec_pixels().len() ==> #[trigger] cur.spec_pixels()[t] == (if tri_visited(
                p0,
                p1,
                p2,
                pre.spec_width() as int,
                pre.spec_height() as int,
                t / 4,
                x,
                y + 1,
            ) && pre.tri_hit(p0, p1, p2, t / 4) {
                channel_of(
                    tri_shade(
                        tex,
                        p0,
                        p1,
                        p2,
                        uv0,
                        uv1,
                        uv2,
                        intensity,
                        ((t / 4) % (pre.spec_width() as int)) * SCALE,
                        ((t / 4) / (pre.spec_width() as int)) * SCALE,
                    ),
                    t % 4,
                )
            } else {
                pre.spec_pixels()[t]
            }),
{
    let w = pre.spec_width() as int;
    let h = pre.spec_height() as int;
    let cell = x + y * w;
    lemma_grid_index(x, y, w, h);
    assert forall|idx: int| 0 <= idx < pre.pixel_count() implies #[trigger] cur.spec_depths()[idx]
        == (if tri_visited(p0, p1, p2, w, h, idx, x, y + 1) && pre.tri_hit(p0, p1, p2, idx) {
        tri_depth(p0, p1, p2, (idx % w) * SCALE, (idx / w) * SCALE)
    } else {
        pre.spec_depths()[idx] as int
    }) by {
        lemma_pixel_coords(idx, w, h);
        if idx % w == x && idx / w == y {
            assert(idx == cell);
        }
    }
    assert forall|t: int| 0 <= t < pre.spec_pixels().len() implies #[trigger] cur.spec_pixels()[t]
        == (if tri_visited(p0, p1, p2, w, h, t / 4, x, y + 1) && pre.tri_hit(p0, p1, p2, t / 4) {
        channel_of(
            tri_shade(
                tex,
                p0,
                p1,
                p2,
                uv0,
                uv1,
                uv2,
                intensity,
                ((t / 4) % w) * SCALE,
                ((t / 4) / w) * SCALE,
            ),
            t % 4,
        )
    } else {
        pre.spec_pixels()[t]
    }) by {
        lemma_byte_decomp(t, w, h);
        let pix = t / 4;
        if pix % w == x && pix / w == y {
            assert(pix == cell);
        }
    }
}

/// The whole-pixel cell of one fixed-point coordinate.
fn cell(v: i64) -> (r: i64)
    requires
        abs_int(v as int) <= COORD_LIM,
    ensures
        r == cell_of(v as int),
        abs_int(r as int) <= 8192,
{
    proof {
        lemma_div_trunc_bound(v as int, SCALE as int, 8192);
        assert(abs_int(v as int) <= 8192 * abs_int(SCALE as int)) by (nonlinear_arith)
            requires
                abs_int(v as int) <= COORD_LIM,
        ;
    }
    div_i128(v as i128, SCALE as i128) as i64
}

/// Whether the fraction `n / d` is at least zero.
fn side_ok(n: i128, d: i128) -> (r: bool)
    requires
        d != 0,
    ensures
        r == same_side(n as int, d as int),
{
    if d > 0 {
        n >= 0
    } else {
        n <= 0
    }
}

/// The fraction `n / d` is strictly positive (`d != 0`).
pub open spec fn strict_side(n: int, d: int) -> bool {
    if d > 0 {
        n > 0
    } else {
        n < 0
    }
}

/// Strict coverage: the weight basis is non-degenerate (both the area term
/// and the y-extent divisor are nonzero, as their product is) and all three
/// weights are strictly positive.
pub open spec fn strictly_inside(p0: Vec3Fx, p1: Vec3Fx, p2: Vec3Fx, px: int, py: int) -> bool {
    &&& bary_dd(p0, p1, p2) != 0
    &&& strict_side(bary_nn1(p0, p1, p2, px, py), bary_dd(p0, p1, p2))
    &&& strict_side(bary_nn2(p0, p1, p2, px, py), bary_dd(p0, p1, p2))
    &&& strict_side(bary_nn3(p0, p1, p2, px, py), bary_dd(p0, p1, p2))
}

/// The fraction `n / d` lies strictly between zero and one.
pub open spec fn weight_in_unit(n: int, d: int) -> bool {
    if d > 0 {
        0 < n < d
    } else {
        d < n < 0
    }
}

/// Barycentric partition: at a pixel strictly inside a non-degenerate
/// triangle, the three weights are each strictly between zero and one, and
/// they sum to exactly one (numerators over the common denominator `dd`).
pub proof fn law_barycentric_partition(p0: Vec3Fx, p1: Vec3Fx, p2: Vec3Fx, px: int, py: int)
    requires
        strictly_inside(p0, p1, p2, px, py),
    ensures
        bary_nn1(p0, p1, p2, px, py) + bary_nn2(p0, p1, p2, px, py) + bary_nn3(p0, p1, p2, px, py)
            == bary_dd(p0, p1, p2),
        weight_in_unit(bary_nn1(p0, p1, p2, px, py), bary_dd(p0, p1, p2)),
        weight_in_unit(bary_nn2(p0, p1, p2, px, py), bary_dd(p0, p1, p2)),
        weight_in_unit(bary_nn3(p0, p1, p2, px, py), bary_dd(p0, p1, p2)),
{
}

/// Depth-test monotonicity: when two triangles both cover a pixel and both
/// beat its initial depth, drawing them in either order leaves the pixel with
/// the colour and depth of the triangle whose interpolated depth is greater.
pub proof fn law_depth_order_independent(
    r0: Renderer,
    ra: Renderer,
    rab: Renderer,
    rb: Renderer,
    rba: Renderer,
    a0: Vec3Fx,
    a1: Vec3Fx,
    a2: Vec3Fx,
    auv0: Vec2Fx,
    auv1: Vec2Fx,
    auv2: Vec2Fx,
    atex: Texture,
    aint: int,
    b0: Vec3Fx,
    b1: Vec3Fx,
    b2: Vec3Fx,
    buv0: Vec2Fx,
    buv1: Vec2Fx,
    buv2: Vec2Fx,
    btex: Texture,
    bint: int,
    idx: int,
)
    requires
        r0.wf(),
        triangle_post(r0, ra, a0, a1, a2, auv0, auv1, auv2, atex, aint),
        triangle_post(ra, rab, b0, b1, b2, buv0, buv1, buv2, btex, bint),
        triangle_post(r0, rb, b0, b1, b2, buv0, buv1, buv2, btex, bint),
        triangle_post(rb, rba, a0, a1, a2, auv0, auv1, auv2, atex, aint),
        0 <= idx < r0.pixel_count(),
        r0.tri_hit(a0, a1, a2, idx),
        r0.tri_hit(b0, b1, b2, idx),
        tri_depth(
            a0,
            a1,
            a2,
            (idx % (r0.spec_width() as int)) * SCALE,
            (idx / (r0.spec_width() as int)) * SCALE,
        ) != tri_depth(
            b0,
            b1,
            b2,
            (idx % (r0.spec_width() as int)) * SCALE,
            (idx / (r0.spec_width() as int)) * SCALE,
        ),
    ensures
        rab.pixel_color_at(idx) == rba.pixel_color_at(idx),
        rab.spec_depths()[idx] == rba.spec_depths()[idx],
        rab.spec_depths()[idx] as int == max_int(
            tri_depth(
                a0,
                a1,
                a2,
                (idx % (r0.spec_width() as int)) * SCALE,
                (idx / (r0.spec_width() as int)) * SCALE,
            ),
            tri_depth(
                b0,
                b1,
                b2,
                (idx % (r0.spec_width() as int)) * SCALE,
                (idx / (r0.spec_width() as int)) * SCALE,
            ),
        ),
        rab.pixel_color_at(idx) == (if tri_depth(
            a0,
            a1,
            a2,
            (idx % (r0.spec_width() as int)) * SCALE,
            (idx / (r0.spec_width() as int)) * SCALE,
        ) > tri_depth(
            b0,
            b1,
            b2,
            (idx % (r0.spec_width() as int)) * SCALE,
            (idx / (r0.spec_width() as int)) * SCALE,
        ) {
            tri_shade(
                atex,
                a0,
                a1,
                a2,
                auv0,
                auv1,
                auv2,
                aint,
                (idx % (r0.spec_width() as int)) * SCALE,
                (idx / (r0.spec_width() as int)) * SCALE,
            )
        } else {
            tri_shade(
                btex,
                b0,
                b1,
                b2,
                buv0,
                buv1,
                buv2,
                bint,
                (idx % (r0.spec_width() as int)) * SCALE,
                (idx / (r0.spec_width() as int)) * SCALE,
            )
        }),
{
    let w = r0.spec_width() as int;
    let px = (idx % w) * SCALE;
    let py = (idx / w) * SCALE;
    let za = tri_depth(a0, a1, a2, px, py);
    let zb = tri_depth(b0, b1, b2, px, py);
    assert((4 * idx) % 4 == 0 && (4 * idx + 1) % 4 == 1 && (4 * idx + 2) % 4 == 2 && (4 * idx + 3)
        % 4 == 3) by (nonlinear_arith);
    assert((4 * idx) / 4 == idx && (4 * idx + 1) / 4 == idx && (4 * idx + 2) / 4 == idx && (4 * idx
        + 3) / 4 == idx) by (nonlinear_arith);
    if za > zb {
        // A then B: A wins immediately, and B loses the depth test afterwards.
        assert(ra.spec_depths()[idx] as int == za);
        assert(!ra.tri_hit(b0, b1, b2, idx));
        assert(rab.pixel_color_at(idx) == ra.pixel_color_at(idx));
        // B then A: B wins first, then A overdraws it.
        assert(rb.spec_depths()[idx] as int == zb);
        assert(rb.tri_hit(a0, a1, a2, idx));
        assert(rba.spec_depths()[idx] as int == za);
    } else {
        // zb > za: symmetric.
        assert(ra.spec_depths()[idx] as int == za);
        assert(ra.tri_hit(b0, b1, b2, idx));
        assert(rab.spec_depths()[idx] as int == zb);
        assert(rb.spec_depths()[idx] as int == zb);
        assert(!rb.tri_hit(a0, a1, a2, idx));
        assert(rba.pixel_color_at(idx) == rb.pixel_color_at(idx));
    }
}

// ---------------------------------------------------------------------------
// Line drawing (Bresenham).
// ---------------------------------------------------------------------------

/// One Bresenham step writes the pixel at `index` when it lies in the
/// viewport; an out-of-bounds index is a recoverable per-pixel condition and
/// is skipped.
pub open spec fn line_plot(pixels: Seq<u8>, n: int, index: int, c: Color) -> Seq<u8> {
    if 0 <= index < n {
        with_pixel(pixels, index, c)
    } else {
        pixels
    }
}

/// The framebuffer after the Bresenham scan from column `x` (exclusive of
/// `x1`), carrying the doubled error term.
pub open spec fn spec_line_from(
    pixels: Seq<u8>,
    w: int,
    h: int,
    steep: bool,
    x: int,
    x1: int,
    y: int,
    error2: int,
    derror2: int,
    dx: int,
    up: bool,
    c: Color,
) -> Seq<u8>
    decreases x1 - x,
{
    if x >= x1 {
        pixels
    } else {
        let index = if steep {
            y + x * w
        } else {
            x + y * w
        };
        let p2 = line_plot(pixels, w * h, index, c);
        let e2 = error2 + derror2;
        if e2 > dx {
            let y2 = if up {
                y + 1
            } else {
                y - 1
            };
            spec_line_from(p2, w, h, steep, x + 1, x1, y2, e2 - 2 * dx, derror2, dx, up, c)
        } else {
            spec_line_from(p2, w, h, steep, x + 1, x1, y, e2, derror2, dx, up, c)
        }
    }
}

/// The framebuffer after drawing the Bresenham line from `start` to `end`:
/// a line with an endpoint outside the viewport is not drawn at all.
pub open spec fn spec_line(
    pixels: Seq<u8>,
    w: int,
    h: int,
    x0: int,
    y0: int,
    x1: int,
    y1: int,
    c: Color,
) -> Seq<u8> {
    if !(0 <= x0 < w && 0 <= y0 < h && 0 <= x1 < w && 0 <= y1 < h) {
        pixels
    } else {
        let steep = abs_int(x0 - x1) < abs_int(y0 - y1);
        let ax0 = if steep {
            y0
        } else {
            x0
        };
        let ay0 = if steep {
            x0
        } else {
            y0
        };
        let ax1 = if steep {
            y1
        } else {
            x1
        };
        let ay1 = if steep {
            x1
        } else {
            y1
        };
        let bx0 = if ax0 > ax1 {
            ax1
        } else {
            ax0
        };
        let by0 = if ax0 > ax1 {
            ay1
        } else {
            ay0
        };
        let bx1 = if ax0 > ax1 {
            ax0
        } else {
            ax1
        };
        let by1 = if ax0 > ax1 {
            ay0
        } else {
            ay1
        };
        spec_line_from(
            pixels,
            w,
            h,
            steep,
            bx0,
            bx1,
            by0,
            0,
            2 * abs_int(by1 - by0),
            bx1 - bx0,
            by1 > by0,
            c,
        )
    }
}

impl Renderer {
    /// Draws a straight line of pixels between two points by Bresenham's
    /// midpoint scan; both endpoints must lie in the viewport or nothing is
    /// drawn.  The final column is exclusive, as the scan stops before `x1`.
    pub fn line(&mut self, start: (i32, i32), end: (i32, i32), color: Color)
        requires
            old(self).wf(),
        ensures
            final(self).wf(),
            final(self).spec_width() == old(self).spec_width(),
            final(self).spec_height() == old(self).spec_height(),
            final(self).spec_depths() == old(self).spec_depths(),
            final(self).spec_pixels() == spec_line(
                old(self).spec_pixels(),
                old(self).spec_width() as int,
                old(self).spec_height() as int,
                start.0 as int,
                start.1 as int,
                end.0 as int,
                end.1 as int,
                color,
            ),
    {
        proof {
            lemma_dims_bound(self.spec_width() as int, self.spec_height() as int);
        }
        let wi = self.width as i64;
        let hi = self.height as i64;
        let mut x0: i64 = start.0 as i64;
        let mut y0: i64 = start.1 as i64;
        let mut x1: i64 = end.0 as i64;
        let mut y1: i64 = end.1 as i64;
        if x0 < 0 || x0 >= wi || y0 < 0 || y0 >= hi || x1 < 0 || x1 >= wi || y1 < 0 || y1 >= hi {
            return ;
        }
        let mut steep = false;
        if (if x0 - x1 < 0 {
            x1 - x0
        } else {
            x0 - x1
        }) < (if y0 - y1 < 0 {
            y1 - y0
        } else {
            y0 - y1
        }) {
            let temp = x0;
            x0 = y0;
            y0 = temp;
            let temp = x1;
            x1 = y1;
            y1 = temp;
            steep = true;
        }
        if x0 > x1 {
            let temp = x0;
            x0 = x1;
            x1 = temp;
            let temp = y0;
            y0 = y1;
            y1 = temp;
        }
        let dx = x1 - x0;
        let dy = y1 - y0;
        let derror2 = (if dy < 0 {
            -dy
        } else {
            dy
        }) * 2;
        let mut error2: i64 = 0;
        let mut y = y0;
        let up = y1 > y0;
        let ghost target = spec_line_from(
            self.spec_pixels(),
            wi as int,
            hi as int,
            steep,
            x0 as int,
            x1 as int,
            y0 as int,
            0,
            derror2 as int,
            dx as int,
            up,
            color,
        );
        proof {
            assert(target == spec_line(
                old(self).spec_pixels(),
                old(self).spec_width() as int,
                old(self).spec_height() as int,
                start.0 as int,
                start.1 as int,
                end.0 as int,
                end.1 as int,
                color,
            ));
        }
        let mut x = x0;
        while x < x1
            invariant
                x0 <= x,
                x <= x1,
                0 <= x0,
                x1 < 8192,
                -8192 < y0,
                y0 < 8192,
                dx == x1 - x0,
                0 <= dx,
                0 <= derror2,
                derror2 <= 2 * dx,
                -2 * dx <= error2 <= dx,
                (if up {
                    y0 <= y && y <= y0 + (x - x0)
                } else {
                    y0 - (x - x0) <= y && y <= y0
                }),
                up == (y1 > y0),
                wi == old(self).spec_width(),
                hi == old(self).spec_height(),
                old(self).wf(),
                self.wf(),
                self.spec_width() == old(self).spec_width(),
                self.spec_height() == old(self).spec_height(),
                self.spec_depths() == old(self).spec_depths(),
                target == spec_line_from(
                    self.spec_pixels(),
                    wi as int,
                    hi as int,
                    steep,
                    x as int,
                    x1 as int,
                    y as int,
                    error2 as int,
                    derror2 as int,
                    dx as int,
                    up,
                    color,
                ),
            decreases x1 - x,
        {
            let ghost prev = self.spec_pixels();
            proof {
                lemma_mul_abs_bound(x as int, wi as int, 8192, 8192);
                lemma_mul_abs_bound(y as int, wi as int, 16384, 8192);
                lemma_dims_bound(wi as int, hi as int);
                assert(8192int * 8192 == 67108864 && 16384int * 8192 == 134217728)
                    by (nonlinear_arith);
            }
            let idx64: i64 = if steep {
                y + x * wi
            } else {
                x + y * wi
            };
            if idx64 >= 0 && idx64 < wi * hi {
                let res = self.set_pixel(idx64 as usize, color);
                proof {
                    assert(res is Ok);
                    assert(self.spec_pixels() == line_plot(
                        prev,
                        (wi as int) * (hi as int),
                        idx64 as int,
                        color,
                    ));
                }
            } else {
                proof {
                    assert(self.spec_pixels() == line_plot(
                        prev,
                        (wi as int) * (hi as int),
                        idx64 as int,
                        color,
                    ));
                }
            }
            error2 = error2 + derror2;
            if error2 > dx {
                y = y + (if up {
                    1
                } else {
                    -1
                });
                error2 = error2 - dx * 2;
            }
            x = x + 1;
        }
    }
}

// ---------------------------------------------------------------------------
// Whole-mesh drawing: vertex transformation, backface culling, per-face
// rasterization.
// ---------------------------------------------------------------------------

/// The fixed directional light the shading intensity is measured against.
pub open spec fn light_dir() -> Vec3Fx {
    Vec3Fx { x: 0i64, y: 0i64, z: -65536i64 }
}

/// A vertex taken through model, view and projection, the perspective divide,
/// and the screen mapping; the result is clamped into the rasterizer's
/// coordinate range.  The depth is the post-divide `z`, passed through
/// unchanged (screen-space affine, not perspective-correct).
pub open spec fn transform_vertex_spec(
    v: Vec3Fx,
    mm: Mat4Fx,
    vm: Mat4Fx,
    pm: Mat4Fx,
    w: int,
    h: int,
) -> Vec3Fx {
    let hx = v.x as int;
    let hy = v.y as int;
    let hz = v.z as int;
    let s = SCALE as int;
    let wx = lin4_x(mm, hx, hy, hz, s);
    let wy = lin4_y(mm, hx, hy, hz, s);
    let wz = lin4_z(mm, hx, hy, hz, s);
    let ww = lin4_w(mm, hx, hy, hz, s);
    let vx = lin4_x(vm, wx, wy, wz, ww);
    let vy = lin4_y(vm, wx, wy, wz, ww);
    let vz = lin4_z(vm, wx, wy, wz, ww);
    let vw = lin4_w(vm, wx, wy, wz, ww);
    let cx = lin4_x(pm, vx, vy, vz, vw);
    let cy = lin4_y(pm, vx, vy, vz, vw);
    let cz = lin4_z(pm, vx, vy, vz, vw);
    let cw = lin4_w(pm, vx, vy, vz, vw);
    let nx = fx_div_spec(cx, cw);
    let ny = fx_div_spec(cy, cw);
    let nz = fx_div_spec(cz, cw);
    Vec3Fx {
        x: sat_int(div_trunc((nx + s) * w, 2) + HALF, COORD_LIM as int) as i64,
        y: sat_int(div_trunc((ny + s) * h, 2) + HALF, COORD_LIM as int) as i64,
        z: sat_int(nz, COORD_LIM as int) as i64,
    }
}

/// One index triple of face `i`.
pub open spec fn face_triple(m: Model, i: int, k: int) -> (i32, i32, i32) {
    faces_view(m.faces)[i][k]
}

/// The object-space position of corner `k` of face `i`.
pub open spec fn face_vert(m: Model, i: int, k: int) -> Vec3Fx {
    m.verts@[face_triple(m, i, k).0 as int]
}

/// The texture coordinates of corner `k` of face `i`: `u` as stored, `v`
/// flipped about one (the asset convention), clamped into range.
pub open spec fn face_uv(m: Model, i: int, k: int) -> Vec2Fx {
    let vt = m.tex_coords@[face_triple(m, i, k).1 as int];
    Vec2Fx {
        x: vt.x,
        y: sat_int(abs_int(65536 - vt.y as int), COORD_LIM as int) as i64,
    }
}

/// The face normal: the cross product of two object-space edges, normalized.
pub open spec fn face_normal(m: Model, i: int) -> Vec3Fx {
    let w0 = face_vert(m, i, 0);
    let w1 = face_vert(m, i, 1);
    let w2 = face_vert(m, i, 2);
    v3_normalize_spec(v3_cross_spec(v3_sub_spec(w2, w0), v3_sub_spec(w1, w0)))
}

/// The flat shading intensity of face `i`: normal against the fixed light.
pub open spec fn face_intensity(m: Model, i: int) -> int {
    v3_dot(face_normal(m, i), light_dir())
}

/// Corner `k` of face `i` in screen space.
pub open spec fn face_screen(
    m: Model,
    i: int,
    k: int,
    mm: Mat4Fx,
    vm: Mat4Fx,
    pm: Mat4Fx,
    w: int,
    h: int,
) -> Vec3Fx {
    transform_vertex_spec(face_vert(m, i, k), mm, vm, pm, w, h)
}

/// The buffers after drawing face `i`: culled faces (intensity at most zero)
/// leave them untouched; lit faces rasterize the screen triangle with the
/// texture coordinates rotated by one corner (the asset convention).
pub open spec fn spec_draw_face(
    pixels: Seq<u8>,
    depths: Seq<i64>,
    w: int,
    h: int,
    m: Model,
    tex: Texture,
    mm: Mat4Fx,
    vm: Mat4Fx,
    pm: Mat4Fx,
    i: int,
) -> (Seq<u8>, Seq<i64>) {
    let inten = face_intensity(m, i);
    if inten > 0 {
        let s0 = face_screen(m, i, 0, mm, vm, pm, w, h);
        let s1 = face_screen(m, i, 1, mm, vm, pm, w, h);
        let s2 = face_screen(m, i, 2, mm, vm, pm, w, h);
        let u0 = face_uv(m, i, 1);
        let u1 = face_uv(m, i, 2);
        let u2 = face_uv(m, i, 0);
        (
            tri_new_pixels(pixels, depths, w, h, s0, s1, s2, u0, u1, u2, tex, inten),
            tri_new_depths(depths, w, h, s0, s1, s2),
        )
    } else {
        (pixels, depths)
    }
}

/// The buffers after drawing the first `k` faces, in order.
pub open spec fn spec_draw_faces(
    pixels: Seq<u8>,
    depths: Seq<i64>,
    w: int,
    h: int,
    m: Model,
    tex: Texture,
    mm: Mat4Fx,
    vm: Mat4Fx,
    pm: Mat4Fx,
    k: int,
) -> (Seq<u8>, Seq<i64>)
    decreases k,
{
    if k <= 0 {
        (pixels, depths)
    } else {
        let prev = spec_draw_faces(pixels, depths, w, h, m, tex, mm, vm, pm, k - 1);
        spec_draw_face(prev.0, prev.1, w, h, m, tex, mm, vm, pm, k - 1)
    }
}

/// Backface culling: a face whose object-space winding turns the normal away
/// from the light (the cross product's z component at least zero, so the dot
/// with the light at `(0, 0, -1)` is at most zero) produces no pixel writes.
pub proof fn law_backface_culled(
    pixels: Seq<u8>,
    depths: Seq<i64>,
    w: int,
    h: int,
    m: Model,
    tex: Texture,
    mm: Mat4Fx,
    vm: Mat4Fx,
    pm: Mat4Fx,
    i: int,
)
    requires
        v3_cross_z(
            v3_sub_spec(face_vert(m, i, 2), face_vert(m, i, 0)),
            v3_sub_spec(face_vert(m, i, 1), face_vert(m, i, 0)),
        ) >= 0,
    ensures
        face_intensity(m, i) <= 0,
        spec_draw_face(pixels, depths, w, h, m, tex, mm, vm, pm, i) == (pixels, depths),
{
    lemma_face_intensity_sign(m, i);
}

/// A nonnegative cross-product z gives a nonpositive intensity.
proof fn lemma_face_intensity_sign(m: Model, i: int)
    requires
        v3_cross_z(
            v3_sub_spec(face_vert(m, i, 2), face_vert(m, i, 0)),
            v3_sub_spec(face_vert(m, i, 1), face_vert(m, i, 0)),
        ) >= 0,
    ensures
        face_intensity(m, i) <= 0,
{
    let cr = v3_cross_spec(
        v3_sub_spec(face_vert(m, i, 2), face_vert(m, i, 0)),
        v3_sub_spec(face_vert(m, i, 1), face_vert(m, i, 0)),
    );
    let n = v3_normalize_spec(cr);
    let len = v3_len(cr);
    assert(v3_normsq(cr) >= 0) by (nonlinear_arith);
    crate::fixed::lemma_sqrt_int_bounds(v3_normsq(cr));
    let nz = v3_norm_c(cr.z as int, len);
    if len != 0 {
        assert((cr.z as int) * SCALE >= 0) by (nonlinear_arith)
            requires
                cr.z as int >= 0,
        ;
        crate::fixed::lemma_div_trunc_nonneg((cr.z as int) * SCALE, len);
    }
    assert(nz >= 0);
    let dsum = (n.x as int) * 0 + (n.y as int) * 0 + (n.z as int) * -65536;
    assert((n.x as int) * 0 == 0 && (n.y as int) * 0 == 0) by (nonlinear_arith);
    assert((n.z as int) * -65536 <= 0) by (nonlinear_arith)
        requires
            n.z as int >= 0,
    ;
    assert(div_trunc(dsum, 65536) <= 0) by {
        if dsum < 0 {
            vstd::arithmetic::div_mod::lemma_div_pos_is_pos(-dsum, 65536);
        } else {
            vstd::arithmetic::div_mod::lemma_div_of0(65536);
        }
    }
}

/// The shading intensity of any face lies within one fixed-point unit.
proof fn lemma_intensity_range(n: Vec3Fx)
    requires
        abs_int(n.x as int) <= SCALE,
        abs_int(n.y as int) <= SCALE,
        abs_int(n.z as int) <= SCALE,
    ensures
        abs_int(v3_dot(n, light_dir())) <= SCALE,
{
    let dsum = (n.x as int) * 0 + (n.y as int) * 0 + (n.z as int) * -65536;
    assert((n.x as int) * 0 == 0 && (n.y as int) * 0 == 0) by (nonlinear_arith);
    lemma_mul_abs_bound(n.z as int, -65536, 65536, 65536);
    assert(65536int * 65536 == 4294967296) by (nonlinear_arith);
    lemma_div_trunc_bound(dsum, 65536, 65536);
}

impl Renderer {
    /// Takes one vertex through model, view and projection, the perspective
    /// divide, and the mapping into this viewport's pixel coordinates.
    fn transform_vertex(&self, vertex: Vec3Fx, mm: Mat4Fx, vm: Mat4Fx, pm: Mat4Fx) -> (r: Vec3Fx)
        requires
            self.wf(),
            vertex.sat_bounded(),
            mat4_wf(mm),
            mat4_wf(vm),
            mat4_wf(pm),
        ensures
            r == transform_vertex_spec(
                vertex,
                mm,
                vm,
                pm,
                self.spec_width() as int,
                self.spec_height() as int,
            ),
            r.bounded(),
    {
        let homogeneous = Vec4Fx::new(vertex.x, vertex.y, vertex.z, SCALE);
        let world = mm.transform4(homogeneous);
        let view = vm.transform4(world);
        let clip = pm.transform4(view);
        let nx = fx_div(clip.x, clip.w);
        let ny = fx_div(clip.y, clip.w);
        let nz = fx_div(clip.z, clip.w);
        proof {
            lemma_mul_abs_bound(
                nx as int + SCALE as int,
                self.spec_width() as int,
                2199023255552,
                8192,
            );
            lemma_mul_abs_bound(
                ny as int + SCALE as int,
                self.spec_height() as int,
                2199023255552,
                8192,
            );
            assert(2199023255552int * 8192 == 18014398509481984) by (nonlinear_arith);
        }
        let sx = sat_i128(
            div_i128(((nx as i128) + (SCALE as i128)) * (self.width as i128), 2) + (HALF as i128),
            COORD_LIM,
        );
        let sy = sat_i128(
            div_i128(((ny as i128) + (SCALE as i128)) * (self.height as i128), 2) + (HALF as i128),
            COORD_LIM,
        );
        let sz = sat_i128(nz as i128, COORD_LIM);
        Vec3Fx { x: sx, y: sy, z: sz }
    }

    /// Draws every face of a mesh: transforms its three corners to screen
    /// space, culls faces turned away from the light, and rasterizes the rest
    /// with flat shading.  The unused colour parameter is kept for callers
    /// that select a tint; shading comes from the texture alone.
    pub fn draw_model(
        &mut self,
        model: &Model,
        texture: &Texture,
        model_matrix: Mat4Fx,
        view_matrix: Mat4Fx,
        projection_matrix: Mat4Fx,
        _color: Color,
    )
        requires
            old(self).wf(),
            model.wf(),
            texture.wf(),
            mat4_wf(model_matrix),
            mat4_wf(view_matrix),
            mat4_wf(projection_matrix),
        ensures
            final(self).wf(),
            final(self).spec_width() == old(self).spec_width(),
            final(self).spec_height() == old(self).spec_height(),
            final(self).spec_pixels() == spec_draw_faces(
                old(self).spec_pixels(),
                old(self).spec_depths(),
                old(self).spec_width() as int,
                old(self).spec_height() as int,
                *model,
                *texture,
                model_matrix,
                view_matrix,
                projection_matrix,
                faces_view(model.faces).len() as int,
            ).0,
            final(self).spec_depths() == spec_draw_faces(
                old(self).spec_pixels(),
                old(self).spec_depths(),
                old(self).spec_width() as int,
                old(self).spec_height() as int,
                *model,
                *texture,
                model_matrix,
                view_matrix,
                projection_matrix,
                faces_view(model.faces).len() as int,
            ).1,
    {
        let light_dir_v = Vec3Fx::new(0, 0, -SCALE);
        let nfaces = model.faces.len();
        let ghost wint = self.spec_width() as int;
        let ghost hint = self.spec_height() as int;
        let mut i: usize = 0;
        while i < nfaces
            invariant
                i <= nfaces,
                nfaces == faces_view(model.faces).len(),
                model.wf(),
                texture.wf(),
                mat4_wf(model_matrix),
                mat4_wf(view_matrix),
                mat4_wf(projection_matrix),
                light_dir_v == light_dir(),
                old(self).wf(),
                old(self).spec_width() as int == wint,
                old(self).spec_height() as int == hint,
                self.wf(),
                self.spec_width() as int == wint,
                self.spec_height() as int == hint,
                self.spec_pixels() == spec_draw_faces(
                    old(self).spec_pixels(),
                    old(self).spec_depths(),
                    wint,
                    hint,
                    *model,
                    *texture,
                    model_matrix,
                    view_matrix,
                    projection_matrix,
                    i as int,
                ).0,
                self.spec_depths() == spec_draw_faces(
                    old(self).spec_pixels(),
                    old(self).spec_depths(),
                    wint,
                    hint,
                    *model,
                    *texture,
                    model_matrix,
                    view_matrix,
                    projection_matrix,
                    i as int,
                ).1,
            decreases nfaces - i,
        {
            let face = &model.faces[i];
            proof {
                assert(faces_view(model.faces)[i as int] == face@);
            }
            let t0 = face[0];
            let t1 = face[1];
            let t2 = face[2];
            let v0 = model.verts[t0.0 as usize];
            let v1 = model.verts[t1.0 as usize];
            let v2 = model.verts[t2.0 as usize];
            let vt0 = model.tex_coords[t0.1 as usize];
            let vt1 = model.tex_coords[t1.1 as usize];
            let vt2 = model.tex_coords[t2.1 as usize];
            let s0 = self.transform_vertex(v0, model_matrix, view_matrix, projection_matrix);
            let s1 = self.transform_vertex(v1, model_matrix, view_matrix, projection_matrix);
            let s2 = self.transform_vertex(v2, model_matrix, view_matrix, projection_matrix);
            let uv0 = flip_uv(vt0);
            let uv1 = flip_uv(vt1);
            let uv2 = flip_uv(vt2);
            let edge_a = v2.sub(v0);
            let edge_b = v1.sub(v0);
            let n = edge_a.cross(edge_b);
            let norm = n.normalize();
            let intensity = norm.dot(&light_dir_v);
            proof {
                assert(v0 == face_vert(*model, i as int, 0));
                assert(v1 == face_vert(*model, i as int, 1));
                assert(v2 == face_vert(*model, i as int, 2));
                assert(norm == face_normal(*model, i as int));
                assert(intensity as int == face_intensity(*model, i as int));
                assert(uv0 == face_uv(*model, i as int, 0));
                assert(uv1 == face_uv(*model, i as int, 1));
                assert(uv2 == face_uv(*model, i as int, 2));
                assert(s0 == face_screen(
                    *model,
                    i as int,
                    0,
                    model_matrix,
                    view_matrix,
                    projection_matrix,
                    wint,
                    hint,
                ));
                lemma_intensity_range(norm);
            }
            if intensity > 0 {
                let ghost prev_p = self.spec_pixels();
                let ghost prev_z = self.spec_depths();
                self.triangle2d(s0, s1, s2, uv1, uv2, uv0, texture, intensity);
                proof {
                    assert(spec_draw_faces(
                        old(self).spec_pixels(),
                        old(self).spec_depths(),
                        wint,
                        hint,
                        *model,
                        *texture,
                        model_matrix,
                        view_matrix,
                        projection_matrix,
                        i as int + 1,
                    ) == spec_draw_face(
                        prev_p,
                        prev_z,
                        wint,
                        hint,
                        *model,
                        *texture,
                        model_matrix,
                        view_matrix,
                        projection_matrix,
                        i as int,
                    ));
                }
            } else {
                proof {
                    assert(spec_draw_faces(
                        old(self).spec_pixels(),
                        old(self).spec_depths(),
                        wint,
                        hint,
                        *model,
                        *texture,
                        model_matrix,
                        view_matrix,
                        projection_matrix,
                        i as int + 1,
                    ) == spec_draw_face(
                        self.spec_pixels(),
                        self.spec_depths(),
                        wint,
                        hint,
                        *model,
                        *texture,
                        model_matrix,
                        view_matrix,
                        projection_matrix,
                        i as int,
                    ));
                }
            }
            i = i + 1;
        }
    }
}

// ---------------------------------------------------------------------------
// Full-scene rendering: depth reset, traversal, per-mesh-node drawing.
// ---------------------------------------------------------------------------

/// The camera a manager exposes as active, if a valid one is configured.
pub open spec fn active_camera_of(cm: CameraManager) -> Option<Camera> {
    match cm.spec_active() {
        Some(id) => if cm.valid_id(id) {
            Some(cm.spec_cameras()[id.spec_idx()])
        } else {
            None
        },
        None => None,
    }
}

/// Every mesh node among the visited items references a registered mesh and
/// texture; an unregistered identifier would be a fatal lookup error.
pub open spec fn scene_refs_valid(
    items: Seq<(Mat4Fx, NodeType)>,
    mm: ModelManager,
    tm: TextureManager,
) -> bool {
    forall|k: int|
        0 <= k < items.len() ==> match (#[trigger] items[k]).1 {
            NodeType::Mesh(md) => mm.valid_id(md.model_id) && tm.valid_id(md.texture_id),
            _ => true,
        }
}

/// A depth buffer of `n` sentinel entries.
pub open spec fn sentinel_depths(n: int) -> Seq<i64> {
    Seq::new(n as nat, |t: int| DEPTH_SENTINEL)
}

/// The buffers after processing the first `k` visited items: each mesh node
/// draws its mesh under the node's world transform and the active camera's
/// matrices; without an active camera mesh nodes are skipped.
pub open spec fn spec_render_items(
    pixels: Seq<u8>,
    depths: Seq<i64>,
    w: int,
    h: int,
    items: Seq<(Mat4Fx, NodeType)>,
    mm: ModelManager,
    tm: TextureManager,
    cam: Option<Camera>,
    k: int,
) -> (Seq<u8>, Seq<i64>)
    decreases k,
{
    if k <= 0 {
        (pixels, depths)
    } else {
        let prev = spec_render_items(pixels, depths, w, h, items, mm, tm, cam, k - 1);
        match items[k - 1].1 {
            NodeType::Mesh(md) => match cam {
                Some(c) => {
                    let model = mm.spec_models()[md.model_id.spec_idx()];
                    let tex = tm.spec_textures()[md.texture_id.spec_idx()];
                    spec_draw_faces(
                        prev.0,
                        prev.1,
                        w,
                        h,
                        model,
                        tex,
                        items[k - 1].0,
                        view_matrix_spec(c),
                        projection_matrix_spec(c),
                        faces_view(model.faces).len() as int,
                    )
                },
                None => prev,
            },
            _ => prev,
        }
    }
}

impl Renderer {
    /// Renders a whole scene: resets the depth buffer to the sentinel,
    /// traverses the graph from the root with the identity as the parent
    /// transform, and draws every mesh node with the active camera's view
    /// and projection.  With no active camera, mesh nodes are skipped and
    /// only the depth reset takes effect.
    pub fn render_scene(
        &mut self,
        node: &Node,
        model_manager: &ModelManager,
        texture_manager: &TextureManager,
        camera_manager: &CameraManager,
    )
        requires
            old(self).wf(),
            model_manager.wf(),
            texture_manager.wf(),
            scene_refs_valid(
                spec_traverse(*node, mat4_identity()),
                *model_manager,
                *texture_manager,
            ),
            match active_camera_of(*camera_manager) {
                Some(c) => c.wf(),
                None => true,
            },
        ensures
            final(self).wf(),
            final(self).spec_width() == old(self).spec_width(),
            final(self).spec_height() == old(self).spec_height(),
            final(self).spec_pixels() == spec_render_items(
                old(self).spec_pixels(),
                sentinel_depths(old(self).pixel_count()),
                old(self).spec_width() as int,
                old(self).spec_height() as int,
                spec_traverse(*node, mat4_identity()),
                *model_manager,
                *texture_manager,
                active_camera_of(*camera_manager),
                spec_traverse(*node, mat4_identity()).len() as int,
            ).0,
            final(self).spec_depths() == spec_render_items(
                old(self).spec_pixels(),
                sentinel_depths(old(self).pixel_count()),
                old(self).spec_width() as int,
                old(self).spec_height() as int,
                spec_traverse(*node, mat4_identity()),
                *model_manager,
                *texture_manager,
                active_camera_of(*camera_manager),
                spec_traverse(*node, mat4_identity()).len() as int,
            ).1,
    {
        self.reset_z_buffer();
        let camera = camera_manager.get_active_camera();
        let root_transform = Mat4Fx::identity();
        let items = node.traverse(root_transform);
        let ghost items_seq = spec_traverse(*node, mat4_identity());
        let ghost cam_spec = active_camera_of(*camera_manager);
        let ghost wint = self.spec_width() as int;
        let ghost hint = self.spec_height() as int;
        let ghost pixels0 = old(self).spec_pixels();
        let ghost depths0 = sentinel_depths(old(self).pixel_count());
        proof {
            assert(items@ == items_seq);
            lemma_spec_traverse_wf(*node, mat4_identity());
            assert(self.spec_depths() =~= depths0);
            assert(match camera {
                Some(c) => cam_spec == Some(*c),
                None => cam_spec is None,
            });
        }
        let mut k: usize = 0;
        while k < items.len()
            invariant
                k <= items@.len(),
                items@ == items_seq,
                forall|j: int| 0 <= j < items_seq.len() ==> mat4_wf(#[trigger] items_seq[j].0),
                scene_refs_valid(items_seq, *model_manager, *texture_manager),
                model_manager.wf(),
                texture_manager.wf(),
                match camera {
                    Some(c) => cam_spec == Some(*c),
                    None => cam_spec is None,
                },
                match cam_spec {
                    Some(c) => c.wf(),
                    None => true,
                },
                old(self).wf(),
                old(self).spec_width() as int == wint,
                old(self).spec_height() as int == hint,
                pixels0 == old(self).spec_pixels(),
                depths0 == sentinel_depths(old(self).pixel_count()),
                self.wf(),
                self.spec_width() as int == wint,
                self.spec_height() as int == hint,
                self.spec_pixels() == spec_render_items(
                    pixels0,
                    depths0,
                    wint,
                    hint,
                    items_seq,
                    *model_manager,
                    *texture_manager,
                    cam_spec,
                    k as int,
                ).0,
                self.spec_depths() == spec_render_items(
                    pixels0,
                    depths0,
                    wint,
                    hint,
                    items_seq,
                    *model_manager,
                    *texture_manager,
                    cam_spec,
                    k as int,
                ).1,
            decreases items@.len() - k,
        {
            let item = items[k];
            let ghost prev_p = self.spec_pixels();
            let ghost prev_z = self.spec_depths();
            match item.1 {
                NodeType::Mesh(mesh) => {
                    match camera {
                        Some(active) => {
                            let view_matrix = active.get_view_matrix();
                            let projection_matrix = active.get_projection_matrix();
                            let model = model_manager.get_model(mesh.model_id);
                            let tex = texture_manager.get_texture(mesh.texture_id);
                            self.draw_model(
                                model,
                                tex,
                                item.0,
                                view_matrix,
                                projection_matrix,
                                Color::new(255, 255, 255, 255),
                            );
                            proof {
                                assert(spec_render_items(
                                    pixels0,
                                    depths0,
                                    wint,
                                    hint,
                                    items_seq,
                                    *model_manager,
                                    *texture_manager,
                                    cam_spec,
                                    k as int + 1,
                                ) == spec_draw_faces(
                                    prev_p,
                                    prev_z,
                                    wint,
                                    hint,
                                    *model,
                                    *tex,
                                    item.0,
                                    view_matrix,
                                    projection_matrix,
                                    faces_view(model.faces).len() as int,
                                ));
                            }
                        },
                        None => {
                            proof {
                                assert(spec_render_items(
                                    pixels0,
                                    depths0,
                                    wint,
                                    hint,
                                    items_seq,
                                    *model_manager,
                                    *texture_manager,
                                    cam_spec,
                                    k as int + 1,
                                ) == (prev_p, prev_z));
                            }
                        },
                    }
                },
                NodeType::Light(_) => {
                    proof {
                        assert(spec_render_items(
                            pixels0,
                            depths0,
                            wint,
                            hint,
                            items_seq,
                            *model_manager,
                            *texture_manager,
                            cam_spec,
                            k as int + 1,
                        ) == (prev_p, prev_z));
                    }
                },
                _ => {
                    proof {
                        assert(spec_render_items(
                            pixels0,
                            depths0,
                            wint,
                            hint,
                            items_seq,
                            *model_manager,
                            *texture_manager,
                            cam_spec,
                            k as int + 1,
                        ) == (prev_p, prev_z));
                    }
                },
            }
            k = k + 1;
        }
    }
}

/// Flips the `v` texture coordinate about one (the asset convention) and
/// clamps it into the rasterizer's range.
fn flip_uv(vt: Vec3Fx) -> (r: Vec2Fx)
    requires
        abs_int(vt.x as int) <= COORD_LIM,
    ensures
        r == (Vec2Fx {
            x: vt.x,
            y: sat_int(abs_int(65536 - vt.y as int), COORD_LIM as int) as i64,
        }),
        r.bounded(),
{
    let d = 65536i128 - (vt.y as i128);
    let d = if d < 0 {
        -d
    } else {
        d
    };
    Vec2Fx { x: vt.x, y: sat_i128(d, COORD_LIM) }
}

/// Reading any pixel of a framebuffer cleared to `c` gives back exactly `c`.
pub proof fn law_clear_reads_back(r: Renderer, c: Color, i: int)
    requires
        r.wf(),
        r.spec_pixels() == cleared_pixels(r.pixel_count(), c),
        0 <= i < r.pixel_count(),
    ensures
        r.pixel_color_at(i) == c,
{
    assert((4 * i) % 4 == 0 && (4 * i + 1) % 4 == 1 && (4 * i + 2) % 4 == 2 && (4 * i + 3) % 4
        == 3) by (nonlinear_arith);
}

} // verus!
