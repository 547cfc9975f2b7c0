//! The scene graph: a strict tree of nodes, each holding a local transform
//! and a payload, traversed depth-first while accumulating world transforms.
//!
//! Nodes reference meshes, textures and cameras by lightweight identifiers
//! into the central stores; the graph itself owns no asset data.  Traversal
//! is read-only: it returns the visited `(world transform, payload)` pairs in
//! pre-order.

use vstd::prelude::*;
use crate::fixed::{SCALE, SAT_LIM, sat_int, sat_i128, fx_mul, fx_add, fx_sub, fx_mul_spec, fx_add_spec, fx_sub_spec};
use crate::geometry::{Vec3Fx, QuatFx, Mat4Fx, mat4_wf, mat4_mul, mat4_identity, lemma_mat4_identity_left};
use crate::model::ModelId;
use crate::texture::TextureId;
use crate::camera::CameraId;

verus! {

/// Which mesh a node draws, and with which texture.
#[derive(Debug, Clone, Copy, PartialEq, Eq, Structural)]
pub struct ModelData {
    pub model_id: ModelId,
    pub texture_id: TextureId,
}

/// Which camera a node carries, and how fast it moves.
#[derive(Debug, Clone, Copy, PartialEq, Eq, Structural)]
pub struct CameraEntityData {
    pub camera: CameraId,
    pub speed: i64,
}

/// A node's payload.
#[derive(Debug, Clone, Copy, PartialEq, Eq, Structural)]
pub enum NodeType {
    Mesh(ModelData),
    Light(Vec3Fx),
    Camera(CameraEntityData),
    Group,
}

/// A local transform: translation, rotation and scale, composed into a 4x4
/// matrix on demand.
#[derive(Debug, Clone, Copy, PartialEq, Eq, Structural)]
pub struct Transform {
    pub position: Vec3Fx,
    pub rotation: QuatFx,
    pub scale: Vec3Fx,
}

/// The scale-rotation-translation matrix of a transform: the quaternion's
/// rotation columns, each scaled, with the translation in the last column.
pub open spec fn transform_matrix(t: Transform) -> Mat4Fx {
    let q = t.rotation;
    let x2 = fx_add_spec(q.x as int, q.x as int);
    let y2 = fx_add_spec(q.y as int, q.y as int);
    let z2 = fx_add_spec(q.z as int, q.z as int);
    let xx = fx_mul_spec(q.x as int, x2);
    let xy = fx_mul_spec(q.x as int, y2);
    let xz = fx_mul_spec(q.x as int, z2);
    let yy = fx_mul_spec(q.y as int, y2);
    let yz = fx_mul_spec(q.y as int, z2);
    let zz = fx_mul_spec(q.z as int, z2);
    let wx = fx_mul_spec(q.w as int, x2);
    let wy = fx_mul_spec(q.w as int, y2);
    let wz = fx_mul_spec(q.w as int, z2);
    let sx = t.scale.x as int;
    let sy = t.scale.y as int;
    let sz = t.scale.z as int;
    Mat4Fx {
        m00: fx_mul_spec(fx_sub_spec(SCALE as int, fx_add_spec(yy, zz)), sx) as i64,
        m01: fx_mul_spec(fx_add_spec(xy, wz), sx) as i64,
        m02: fx_mul_spec(fx_sub_spec(xz, wy), sx) as i64,
        m03: 0i64,
        m10: fx_mul_spec(fx_sub_spec(xy, wz), sy) as i64,
        m11: fx_mul_spec(fx_sub_spec(SCALE as int, fx_add_spec(xx, zz)), sy) as i64,
        m12: fx_mul_spec(fx_add_spec(yz, wx), sy) as i64,
        m13: 0i64,
        m20: fx_mul_spec(fx_add_spec(xz, wy), sz) as i64,
        m21: fx_mul_spec(fx_sub_spec(yz, wx), sz) as i64,
        m22: fx_mul_spec(fx_sub_spec(SCALE as int, fx_add_spec(xx, yy)), sz) as i64,
        m23: 0i64,
        m30: sat_int(t.position.x as int, SAT_LIM as int) as i64,
        m31: sat_int(t.position.y as int, SAT_LIM as int) as i64,
        m32: sat_int(t.position.z as int, SAT_LIM as int) as i64,
        m33: SCALE,
    }
}

/// A transform's matrix always has entries within the fixed-point range.
pub proof fn lemma_transform_matrix_wf(t: Transform)
    ensures
        mat4_wf(transform_matrix(t)),
{
}

impl Transform {
    pub fn new(position: Vec3Fx, rotation: QuatFx, scale: Vec3Fx) -> (t: Self)
        ensures
            t == (Transform { position, rotation, scale }),
    {
        Self { position, rotation, scale }
    }

    /// Composes scale, rotation and translation into the node's local matrix.
    pub fn get_model_matrix(&self) -> (m: Mat4Fx)
        ensures
            m == transform_matrix(*self),
            mat4_wf(m),
    {
        let q = self.rotation;
        let x2 = fx_add(q.x, q.x);
        let y2 = fx_add(q.y, q.y);
        let z2 = fx_add(q.z, q.z);
        let xx = fx_mul(q.x, x2);
        let xy = fx_mul(q.x, y2);
        let xz = fx_mul(q.x, z2);
        let yy = fx_mul(q.y, y2);
        let yz = fx_mul(q.y, z2);
        let zz = fx_mul(q.z, z2);
        let wx = fx_mul(q.w, x2);
        let wy = fx_mul(q.w, y2);
        let wz = fx_mul(q.w, z2);
        Mat4Fx {
            m00: fx_mul(fx_sub(SCALE, fx_add(yy, zz)), self.scale.x),
            m01: fx_mul(fx_add(xy, wz), self.scale.x),
            m02: fx_mul(fx_sub(xz, wy), self.scale.x),
            m03: 0,
            m10: fx_mul(fx_sub(xy, wz), self.scale.y),
            m11: fx_mul(fx_sub(SCALE, fx_add(xx, zz)), self.scale.y),
            m12: fx_mul(fx_add(yz, wx), self.scale.y),
            m13: 0,
            m20: fx_mul(fx_add(xz, wy), self.scale.z),
            m21: fx_mul(fx_sub(yz, wx), self.scale.z),
            m22: fx_mul(fx_sub(SCALE, fx_add(xx, yy)), self.scale.z),
            m23: 0,
            m30: sat_i128(self.position.x as i128, SAT_LIM),
            m31: sat_i128(self.position.y as i128, SAT_LIM),
            m32: sat_i128(self.position.z as i128, SAT_LIM),
            m33: SCALE,
        }
    }
}

/// A scene node: a local transform, a payload, and owned children.
#[derive(Debug)]
pub struct Node {
    pub transformation: Transform,
    pub node_type: NodeType,
    children: Vec<Node>,
}

/// Pre-order traversal of one node: its own world transform and payload,
/// then its children's, left to right.
pub closed spec fn spec_traverse(n: Node, parent: Mat4Fx) -> Seq<(Mat4Fx, NodeType)>
    decreases n, 0int,
{
    let world = mat4_mul(parent, transform_matrix(n.transformation));
    seq![(world, n.node_type)] + spec_traverse_from(n.spec_children(), world, 0)
}

/// Traversal of the children from index `i` on.
pub closed spec fn spec_traverse_from(cs: Seq<Node>, world: Mat4Fx, i: int) -> Seq<
    (Mat4Fx, NodeType),
>
    decreases cs, cs.len() - i,
{
    if i < 0 || i >= cs.len() {
        Seq::empty()
    } else {
        spec_traverse(cs[i], world) + spec_traverse_from(cs, world, i + 1)
    }
}

impl Node {
    pub closed spec fn spec_children(&self) -> Seq<Node> {
        self.children@
    }

    pub closed spec fn spec_transformation(&self) -> Transform {
        self.transformation
    }

    pub closed spec fn spec_node_type(&self) -> NodeType {
        self.node_type
    }

    pub fn new(transformation: Transform, node_type: NodeType) -> (n: Self)
        ensures
            n.spec_transformation() == transformation,
            n.spec_node_type() == node_type,
            n.spec_children() == Seq::<Node>::empty(),
    {
        Self { transformation, node_type, children: Vec::new() }
    }

    pub fn add_child(&mut self, child: Node)
        ensures
            final(self).spec_transformation() == old(self).spec_transformation(),
            final(self).spec_node_type() == old(self).spec_node_type(),
            final(self).spec_children() == old(self).spec_children().push(child),
    {
        self.children.push(child);
    }

    /// The node's local matrix.
    pub fn get_transformation(&self) -> (m: Mat4Fx)
        ensures
            m == transform_matrix(self.spec_transformation()),
            mat4_wf(m),
    {
        self.transformation.get_model_matrix()
    }

    pub fn get_node_type(&self) -> (t: &NodeType)
        ensures
            *t == self.spec_node_type(),
    {
        &self.node_type
    }

    pub fn get_children(&self) -> (c: &Vec<Node>)
        ensures
            c@ == self.spec_children(),
    {
        &self.children
    }

    /// Depth-first pre-order traversal, accumulating world transforms: each
    /// visited node's world transform is its parent's times its own local
    /// matrix.
    pub fn traverse(&self, parent_transformation: Mat4Fx) -> (result: Vec<(Mat4Fx, NodeType)>)
        requires
            mat4_wf(parent_transformation),
        ensures
            result@ == spec_traverse(*self, parent_transformation),
        decreases *self,
    {
        let mut result: Vec<(Mat4Fx, NodeType)> = Vec::new();
        let local = self.transformation.get_model_matrix();
        let transformation = parent_transformation.mul(&local);
        result.push((transformation, self.node_type));
        let ghost head = seq![(transformation, self.node_type)];
        let mut i: usize = 0;
        while i < self.children.len()
            invariant
                i <= self.children@.len(),
                mat4_wf(transformation),
                transformation == mat4_mul(parent_transformation, transform_matrix(self.transformation)),
                head == seq![(transformation, self.node_type)],
                head + spec_traverse_from(self.spec_children(), transformation, 0) == result@
                    + spec_traverse_from(self.spec_children(), transformation, i as int),
            decreases self.children@.len() - i,
        {
            let ghost prev = result@;
            let mut child_result = self.children[i].traverse(transformation);
            result.append(&mut child_result);
            proof {
                assert(result@ == prev + spec_traverse(self.spec_children()[i as int], transformation));
                assert(spec_traverse_from(self.spec_children(), transformation, i as int)
                    == spec_traverse(self.spec_children()[i as int], transformation)
                    + spec_traverse_from(self.spec_children(), transformation, i as int + 1));
                assert(head + spec_traverse_from(self.spec_children(), transformation, 0) == result@
                    + spec_traverse_from(self.spec_children(), transformation, i as int + 1)) by {
                    assert(prev + (spec_traverse(self.spec_children()[i as int], transformation)
                        + spec_traverse_from(self.spec_children(), transformation, i as int + 1))
                        =~= (prev + spec_traverse(self.spec_children()[i as int], transformation))
                        + spec_traverse_from(self.spec_children(), transformation, i as int + 1));
                }
            }
            i = i + 1;
        }
        proof {
            assert(spec_traverse_from(self.spec_children(), transformation, i as int)
                =~= Seq::<(Mat4Fx, NodeType)>::empty());
            assert(result@ + Seq::<(Mat4Fx, NodeType)>::empty() =~= result@);
            assert(head + spec_traverse_from(self.spec_children(), transformation, 0)
                == spec_traverse(*self, parent_transformation));
        }
        result
    }
}

/// Every world transform a traversal visits has entries within the
/// fixed-point range.
pub proof fn lemma_spec_traverse_wf(n: Node, p: Mat4Fx)
    ensures
        forall|k: int|
            0 <= k < spec_traverse(n, p).len() ==> mat4_wf(#[trigger] spec_traverse(n, p)[k].0),
    decreases n, 0int,
{
    let world = mat4_mul(p, transform_matrix(n.spec_transformation()));
    lemma_spec_traverse_from_wf(n.spec_children(), world, 0);
    assert forall|k: int| 0 <= k < spec_traverse(n, p).len() implies mat4_wf(
        #[trigger] spec_traverse(n, p)[k].0,
    ) by {
        if k > 0 {
            assert(spec_traverse(n, p)[k] == spec_traverse_from(n.spec_children(), world, 0)[k - 1]);
        }
    }
}

proof fn lemma_spec_traverse_from_wf(cs: Seq<Node>, world: Mat4Fx, i: int)
    ensures
        forall|k: int|
            0 <= k < spec_traverse_from(cs, world, i).len() ==> mat4_wf(
                #[trigger] spec_traverse_from(cs, world, i)[k].0,
            ),
    decreases cs, cs.len() - i,
{
    if !(i < 0 || i >= cs.len()) {
        lemma_spec_traverse_wf(cs[i], world);
        lemma_spec_traverse_from_wf(cs, world, i + 1);
        let head = spec_traverse(cs[i], world);
        let tail = spec_traverse_from(cs, world, i + 1);
        assert forall|k: int| 0 <= k < spec_traverse_from(cs, world, i).len() implies mat4_wf(
            #[trigger] spec_traverse_from(cs, world, i)[k].0,
        ) by {
            if k < head.len() {
                assert(spec_traverse_from(cs, world, i)[k] == head[k]);
            } else {
                assert(spec_traverse_from(cs, world, i)[k] == tail[k - head.len()]);
            }
        }
    }
}

/// Traversal transform composition: down a three-node chain, the world
/// transform visited at the grandchild is the product of the three local
/// matrices in order, `(T_root * T_a) * T_b`, never commuted.
pub proof fn law_traversal_composition(root: Node, a: Node, b: Node)
    requires
        root.spec_children() == seq![a],
        a.spec_children() == seq![b],
        b.spec_children() == Seq::<Node>::empty(),
    ensures
        spec_traverse(root, mat4_identity()).len() == 3,
        spec_traverse(root, mat4_identity())[0].0 == transform_matrix(root.spec_transformation()),
        spec_traverse(root, mat4_identity())[1].0 == mat4_mul(
            transform_matrix(root.spec_transformation()),
            transform_matrix(a.spec_transformation()),
        ),
        spec_traverse(root, mat4_identity())[2].0 == mat4_mul(
            mat4_mul(transform_matrix(root.spec_transformation()), transform_matrix(a.spec_transformation())),
            transform_matrix(b.spec_transformation()),
        ),
{
    lemma_transform_matrix_wf(root.transformation);
    lemma_mat4_identity_left(transform_matrix(root.spec_transformation()));
    let w_root = mat4_mul(mat4_identity(), transform_matrix(root.spec_transformation()));
    assert(w_root == transform_matrix(root.spec_transformation()));
    let w_a = mat4_mul(w_root, transform_matrix(a.spec_transformation()));
    let w_b = mat4_mul(w_a, transform_matrix(b.spec_transformation()));
    assert(spec_traverse(b, w_a) =~= seq![(w_b, b.node_type)]) by {
        assert(spec_traverse_from(b.spec_children(), w_b, 0) =~= Seq::<(Mat4Fx, NodeType)>::empty());
    }
    assert(spec_traverse(a, w_root) =~= seq![(w_a, a.node_type), (w_b, b.node_type)]) by {
        assert(a.spec_children()[0] == b);
        assert(spec_traverse_from(a.spec_children(), w_a, 1) =~= Seq::<(Mat4Fx, NodeType)>::empty());
        assert(spec_traverse_from(a.spec_children(), w_a, 0) =~= spec_traverse(b, w_a));
    }
    assert(spec_traverse(root, mat4_identity()) =~= seq![
        (w_root, root.node_type),
        (w_a, a.node_type),
        (w_b, b.node_type),
    ]) by {
        assert(root.spec_children()[0] == a);
        assert(spec_traverse_from(root.spec_children(), w_root, 1) =~= Seq::<
            (Mat4Fx, NodeType),
        >::empty());
        assert(spec_traverse_from(root.spec_children(), w_root, 0) =~= spec_traverse(a, w_root));
    }
}

} // verus!
