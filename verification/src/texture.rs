//! Decoded RGBA textures and their store.
//!
//! A texture samples by nearest neighbour: both coordinates of a 16.16
//! fixed-point UV pair are clamped into `[0, 1]` before the lookup, so
//! sampling never indexes out of bounds.  Decoding image files from disk is
//! the surrounding application's concern; the store receives plain
//! width/height/byte-buffer triples.

use vstd::prelude::*;
use crate::fixed::{SCALE, clamp_int};
use crate::renderer::Color;

verus! {

/// Largest supported texture side length.
pub const TEX_MAX_DIM: usize = 1048576;

pub struct Texture {
    pub width: usize,
    pub height: usize,
    pub pixels: Vec<u8>,
}

/// The texel column for a fixed-point `u`: clamp into `[0, 1]`, scale to
/// pixels, truncate, and guard the `u == 1` boundary.
pub open spec fn texel_coord(u: int, dim: int) -> int {
    let xi = clamp_int(u, 0, SCALE as int) * dim / (SCALE as int);
    if xi > dim - 1 {
        dim - 1
    } else {
        xi
    }
}

/// What `sample` returns: the RGBA quad at the clamped texel address.
pub open spec fn sample_spec(t: Texture, u: int, v: int) -> Color {
    let x = texel_coord(u, t.width as int);
    let y = texel_coord(v, t.height as int);
    let base = 4 * (y * t.width + x);
    Color {
        r: t.pixels@[base],
        g: t.pixels@[base + 1],
        b: t.pixels@[base + 2],
        a: t.pixels@[base + 3],
    }
}

impl Texture {
    /// Non-empty, of supported size, with a full RGBA byte buffer.
    pub open spec fn wf(&self) -> bool {
        &&& 1 <= self.width <= TEX_MAX_DIM
        &&& 1 <= self.height <= TEX_MAX_DIM
        &&& self.pixels@.len() == self.width * self.height * 4
    }

    /// Nearest-neighbour lookup of a fixed-point UV pair, clamped into the
    /// texture.
    pub fn sample(&self, u: i64, v: i64) -> (c: Color)
        requires
            self.wf(),
        ensures
            c == sample_spec(*self, u as int, v as int),
    {
        let x = Self::coord(u, self.width);
        let y = Self::coord(v, self.height);
        let byte_len = self.pixels.len();
        proof {
            lemma_texel_coord_in_range(u as int, self.width as int);
            lemma_texel_coord_in_range(v as int, self.height as int);
            crate::fixed::lemma_grid_index(x as int, y as int, self.width as int, self.height as int);
            assert((y as int) * (self.width as int) + (x as int) < (self.width as int) * (
            self.height as int));
        }
        let index = (y * self.width + x) * 4;
        Color {
            r: self.pixels[index],
            g: self.pixels[index + 1],
            b: self.pixels[index + 2],
            a: self.pixels[index + 3],
        }
    }

    /// One clamped texel coordinate.
    fn coord(u: i64, dim: usize) -> (x: usize)
        requires
            1 <= dim <= TEX_MAX_DIM,
        ensures
            x == texel_coord(u as int, dim as int),
    {
        let clamped: u64 = if u < 0 {
            0
        } else if u > SCALE {
            SCALE as u64
        } else {
            u as u64
        };
        proof {
            assert(clamped * (dim as u64) <= 65536 * 1048576) by (nonlinear_arith)
                requires
                    clamped <= 65536,
                    dim as u64 <= 1048576,
            ;
        }
        let xi = (clamped * (dim as u64)) / (SCALE as u64);
        let xi = xi as usize;
        if xi > dim - 1 {
            dim - 1
        } else {
            xi
        }
    }
}

/// A clamped texel coordinate always lies inside the texture.
pub proof fn lemma_texel_coord_in_range(u: int, dim: int)
    requires
        1 <= dim,
    ensures
        0 <= texel_coord(u, dim) < dim,
{
    let c = clamp_int(u, 0, SCALE as int);
    vstd::arithmetic::div_mod::lemma_div_pos_is_pos(c * dim, SCALE as int);
    assert(c * dim >= 0) by (nonlinear_arith)
        requires
            c >= 0,
            dim >= 1,
    ;
}

/// Sampling past the right/top edge of UV space reads the same texel as
/// sampling exactly at the edge.
pub proof fn law_uv_clamp_high(t: Texture, u: int, v: int)
    requires
        u > SCALE,
    ensures
        sample_spec(t, u, v) == sample_spec(t, SCALE as int, v),
        sample_spec(t, v, u) == sample_spec(t, v, SCALE as int),
{
}

/// Sampling below the left/bottom edge of UV space reads the same texel as
/// sampling exactly at zero.
pub proof fn law_uv_clamp_low(t: Texture, u: int, v: int)
    requires
        u < 0,
    ensures
        sample_spec(t, u, v) == sample_spec(t, 0, v),
        sample_spec(t, v, u) == sample_spec(t, v, 0),
{
}

#[derive(Debug, Clone, Copy, PartialEq, Eq, Structural, Hash)]
pub struct TextureId(pub(crate) usize);

impl TextureId {
    /// The slot this identifier names in the store.
    pub closed spec fn spec_idx(&self) -> int {
        self.0 as int
    }
}

/// An arena of loaded textures, addressed by copyable identifiers handed out
/// at load time.
pub struct TextureManager {
    textures: Vec<Texture>,
}

impl TextureManager {
    pub closed spec fn spec_textures(&self) -> Seq<Texture> {
        self.textures@
    }

    /// Every stored texture is well-formed.
    pub open spec fn wf(&self) -> bool {
        forall|i: int|
            0 <= i < self.spec_textures().len() ==> #[trigger] self.spec_textures()[i].wf()
    }

    /// An identifier is valid when it names a stored texture.
    pub open spec fn valid_id(&self, id: TextureId) -> bool {
        0 <= id.spec_idx() < self.spec_textures().len()
    }

    pub fn new() -> (m: Self)
        ensures
            m.wf(),
            m.spec_textures() == Seq::<Texture>::empty(),
    {
        TextureManager { textures: Vec::new() }
    }

    /// Stores one decoded texture and hands back its identifier.  The caller
    /// supplies the decoded RGBA bytes; reading and decoding the file is the
    /// application's task, and a malformed buffer is rejected there.
    pub fn load_texture(&mut self, width: usize, height: usize, pixels: Vec<u8>) -> (id: TextureId)
        requires
            old(self).wf(),
            1 <= width <= TEX_MAX_DIM,
            1 <= height <= TEX_MAX_DIM,
            pixels@.len() == width * height * 4,
        ensures
            final(self).wf(),
            final(self).valid_id(id),
            id.spec_idx() == old(self).spec_textures().len(),
            final(self).spec_textures() == old(self).spec_textures().push(
                Texture { width, height, pixels: pixels },
            ),
    {
        let texture = Texture { width, height, pixels };
        let texture_id = TextureId(self.textures.len());
        self.textures.push(texture);
        proof {
            assert forall|i: int| 0 <= i < self.spec_textures().len() implies #[trigger] self.spec_textures()[i].wf() by {
                if i < old(self).spec_textures().len() {
                    assert(self.spec_textures()[i] == old(self).spec_textures()[i]);
                }
            }
        }
        texture_id
    }

    /// Looks an identifier up; the identifier's validity is the caller's
    /// responsibility, as an unregistered one is a fatal error.
    pub fn get_texture(&self, texture_id: TextureId) -> (t: &Texture)
        requires
            self.wf(),
            self.valid_id(texture_id),
        ensures
            *t == self.spec_textures()[texture_id.spec_idx()],
            t.wf(),
    {
        &self.textures[texture_id.0]
    }
}

} // verus!

