//! Meshes and their store.
//!
//! A mesh holds vertex positions, texture coordinates, normals and faces of
//! index triples.  Validation is a load-time concern: the constructor checks
//! every face index against its array and every coordinate against the
//! rasterizer's range, so the drawing code never meets a malformed mesh.
//! Parsing mesh files from disk is the surrounding application's concern; the
//! store receives plain coordinate and index lists.

use vstd::prelude::*;
use crate::fixed::COORD_LIM;
use crate::geometry::Vec3Fx;

verus! {

#[derive(Debug)]
pub struct Model {
    pub verts: Vec<Vec3Fx>,
    pub tex_coords: Vec<Vec3Fx>,
    pub normals: Vec<Vec3Fx>,
    pub faces: Vec<Vec<(i32, i32, i32)>>,
}

#[derive(Debug, Clone, Copy, PartialEq, Eq, Structural)]
pub enum ModelError {
    /// A vertex or texture coordinate lies outside the rasterizer's range.
    CoordinateOutOfRange,
    /// A face has fewer than three corners, or an index is out of bounds.
    InvalidFace,
}

/// All vertex positions and texture coordinates within the rasterizer's range.
pub open spec fn coords_ok(verts: Seq<Vec3Fx>, tex_coords: Seq<Vec3Fx>) -> bool {
    &&& forall|i: int| 0 <= i < verts.len() ==> (#[trigger] verts[i]).bounded()
    &&& forall|i: int| 0 <= i < tex_coords.len() ==> (#[trigger] tex_coords[i]).bounded()
}

/// One index triple in bounds for the three arrays.
pub open spec fn triple_ok(nv: int, nt: int, nn: int, t: (i32, i32, i32)) -> bool {
    &&& 0 <= t.0 < nv
    &&& 0 <= t.1 < nt
    &&& 0 <= t.2 < nn
}

/// Every face has at least three corners and only in-bounds indices.
pub open spec fn faces_ok(nv: int, nt: int, nn: int, faces: Seq<Seq<(i32, i32, i32)>>) -> bool {
    forall|i: int|
        0 <= i < faces.len() ==> {
            &&& (#[trigger] faces[i]).len() >= 3
            &&& forall|j: int| 0 <= j < faces[i].len() ==> triple_ok(nv, nt, nn, #[trigger] faces[i][j])
        }
}

/// The faces of a model, as a sequence of sequences.
pub open spec fn faces_view(faces: Vec<Vec<(i32, i32, i32)>>) -> Seq<Seq<(i32, i32, i32)>> {
    faces@.map_values(|f: Vec<(i32, i32, i32)>| f@)
}

impl Model {
    /// Coordinates in range, faces well-formed: what the constructor checked.
    pub open spec fn wf(&self) -> bool {
        &&& coords_ok(self.verts@, self.tex_coords@)
        &&& faces_ok(
            self.verts@.len() as int,
            self.tex_coords@.len() as int,
            self.normals@.len() as int,
            faces_view(self.faces),
        )
    }

    /// Builds a mesh from parsed data, validating every coordinate and every
    /// face index; a malformed mesh is a fatal load-time error, reported
    /// before any rendering can touch it.
    pub fn new(
        verts: Vec<Vec3Fx>,
        tex_coords: Vec<Vec3Fx>,
        normals: Vec<Vec3Fx>,
        faces: Vec<Vec<(i32, i32, i32)>>,
    ) -> (r: Result<Model, ModelError>)
        ensures
            r is Ok <==> (coords_ok(verts@, tex_coords@) && faces_ok(
                verts@.len() as int,
                tex_coords@.len() as int,
                normals@.len() as int,
                faces_view(faces),
            )),
            r == Err::<Model, ModelError>(ModelError::CoordinateOutOfRange) <==> !coords_ok(
                verts@,
                tex_coords@,
            ),
            r == Err::<Model, ModelError>(ModelError::InvalidFace) <==> (coords_ok(
                verts@,
                tex_coords@,
            ) && !faces_ok(
                verts@.len() as int,
                tex_coords@.len() as int,
                normals@.len() as int,
                faces_view(faces),
            )),
            r matches Ok(m) ==> {
                &&& m.verts@ == verts@
                &&& m.tex_coords@ == tex_coords@
                &&& m.normals@ == normals@
                &&& faces_view(m.faces) == faces_view(faces)
                &&& m.wf()
            },
    {
        let mut i: usize = 0;
        while i < verts.len()
            invariant
                i <= verts.len(),
                forall|k: int| 0 <= k < i ==> (#[trigger] verts@[k]).bounded(),
            decreases verts.len() - i,
        {
            let v = verts[i];
            if v.x > COORD_LIM || v.x < -COORD_LIM || v.y > COORD_LIM || v.y < -COORD_LIM || v.z
                > COORD_LIM || v.z < -COORD_LIM {
                return Err(ModelError::CoordinateOutOfRange);
            }
            i = i + 1;
        }
        let mut i: usize = 0;
        while i < tex_coords.len()
            invariant
                i <= tex_coords.len(),
                forall|k: int| 0 <= k < i ==> (#[trigger] tex_coords@[k]).bounded(),
            decreases tex_coords.len() - i,
        {
            let v = tex_coords[i];
            if v.x > COORD_LIM || v.x < -COORD_LIM || v.y > COORD_LIM || v.y < -COORD_LIM || v.z
                > COORD_LIM || v.z < -COORD_LIM {
                return Err(ModelError::CoordinateOutOfRange);
            }
            i = i + 1;
        }
        let nv = verts.len();
        let nt = tex_coords.len();
        let nn = normals.len();
        let mut i: usize = 0;
        while i < faces.len()
            invariant
                i <= faces.len(),
                nv == verts@.len(),
                nt == tex_coords@.len(),
                nn == normals@.len(),
                coords_ok(verts@, tex_coords@),
                forall|k: int|
                    0 <= k < i ==> {
                        &&& (#[trigger] faces_view(faces)[k]).len() >= 3
                        &&& forall|j: int|
                            0 <= j < faces_view(faces)[k].len() ==> triple_ok(
                                nv as int,
                                nt as int,
                                nn as int,
                                #[trigger] faces_view(faces)[k][j],
                            )
                    },
            decreases faces.len() - i,
        {
            let face = &faces[i];
            proof {
                assert(faces_view(faces)[i as int] == face@);
            }
            if face.len() < 3 {
                return Err(ModelError::InvalidFace);
            }
            let mut j: usize = 0;
            while j < face.len()
                invariant
                    j <= face@.len(),
                    nv == verts@.len(),
                    nt == tex_coords@.len(),
                    nn == normals@.len(),
                    coords_ok(verts@, tex_coords@),
                    0 <= i < faces@.len(),
                    face@ == faces_view(faces)[i as int],
                    forall|k: int|
                        0 <= k < j ==> triple_ok(nv as int, nt as int, nn as int, #[trigger] face@[k]),
                decreases face.len() - j,
            {
                let t = face[j];
                if t.0 < 0 || t.0 as usize >= nv || t.1 < 0 || t.1 as usize >= nt || t.2 < 0 || t.2
                    as usize >= nn {
                    proof {
                        assert(!triple_ok(nv as int, nt as int, nn as int, face@[j as int]));
                        assert(!faces_ok(nv as int, nt as int, nn as int, faces_view(faces)));
                    }
                    return Err(ModelError::InvalidFace);
                }
                j = j + 1;
            }
            proof {
                assert(faces_view(faces)[i as int] == face@);
            }
            i = i + 1;
        }
        Ok(Model { verts, tex_coords, normals, faces })
    }
}

#[derive(Debug, Clone, Copy, PartialEq, Eq, Structural, Hash)]
pub struct ModelId(pub(crate) usize);

impl ModelId {
    /// The slot this identifier names in the store.
    pub closed spec fn spec_idx(&self) -> int {
        self.0 as int
    }
}

/// An arena of loaded meshes, addressed by copyable identifiers handed out at
/// registration time.
pub struct ModelManager {
    models: Vec<Model>,
}

impl ModelManager {
    pub closed spec fn spec_models(&self) -> Seq<Model> {
        self.models@
    }

    /// Every stored mesh is well-formed.
    pub open spec fn wf(&self) -> bool {
        forall|i: int| 0 <= i < self.spec_models().len() ==> (#[trigger] self.spec_models()[i]).wf()
    }

    /// An identifier is valid when it names a stored mesh.
    pub open spec fn valid_id(&self, id: ModelId) -> bool {
        0 <= id.spec_idx() < self.spec_models().len()
    }

    pub fn new() -> (m: Self)
        ensures
            m.wf(),
            m.spec_models() == Seq::<Model>::empty(),
    {
        ModelManager { models: Vec::new() }
    }

    /// Stores one validated mesh and hands back its identifier.
    pub fn add_model(&mut self, model: Model) -> (id: ModelId)
        requires
            old(self).wf(),
            model.wf(),
        ensures
            final(self).wf(),
            final(self).valid_id(id),
            id.spec_idx() == old(self).spec_models().len(),
            final(self).spec_models() == old(self).spec_models().push(model),
    {
        let id = ModelId(self.models.len());
        self.models.push(model);
        proof {
            assert forall|i: int| 0 <= i < self.spec_models().len() implies (#[trigger] self.spec_models()[i]).wf() by {
                if i < old(self).spec_models().len() {
                    assert(self.spec_models()[i] == old(self).spec_models()[i]);
                }
            }
        }
        id
    }

    /// Looks an identifier up; the identifier's validity is the caller's
    /// responsibility, as an unregistered one is a fatal error.
    pub fn get_model(&self, id: ModelId) -> (m: &Model)
        requires
            self.wf(),
            self.valid_id(id),
        ensures
            *m == self.spec_models()[id.spec_idx()],
            m.wf(),
    {
        &self.models[id.0]
    }
}

} // verus!
