//! Cameras and their store.
//!
//! A camera owns its view parameters and derives its view and projection
//! matrices on demand, recomputing them each call so that mutation and query
//! interleave freely.  The matrices mirror the right-handed look-at and
//! perspective constructions on the fixed-point grid.

use vstd::prelude::*;
use crate::fixed::{SCALE, fx_mul, fx_div, fx_sub, fx_mul_spec, fx_div_spec, fx_sub_spec, fx_add_spec, div_trunc, div_i128};
use crate::geometry::{
    Vec3Fx,
    Vec4Fx,
    Mat4Fx,
    mat4_wf,
    lin4_x,
    lin4_y,
    lin4_z,
    v3_add_spec,
    v3_sub_spec,
    v3_cross_spec,
    v3_normalize_spec,
    v3_dot,
};
use crate::trig::{sin_fx, cos_fx, sin_fx_spec, cos_fx_spec};

verus! {

#[derive(Debug, Clone, Copy, PartialEq, Eq, Structural)]
pub struct Camera {
    pub position: Vec3Fx,
    pub target: Vec3Fx,
    pub up: Vec3Fx,
    pub fov: i64,
    pub aspect_ratio: i64,
    pub z_near: i64,
    pub z_far: i64,
    pub speed: i64,
}

/// The right-handed look-to matrix from an eye point, a direction and an up
/// vector.
pub open spec fn look_to_spec(eye: Vec3Fx, dir: Vec3Fx, up: Vec3Fx) -> Mat4Fx {
    let f = v3_normalize_spec(dir);
    let s = v3_normalize_spec(v3_cross_spec(f, up));
    let u = v3_cross_spec(s, f);
    Mat4Fx {
        m00: s.x,
        m01: u.x,
        m02: (-(f.x as int)) as i64,
        m03: 0i64,
        m10: s.y,
        m11: u.y,
        m12: (-(f.y as int)) as i64,
        m13: 0i64,
        m20: s.z,
        m21: u.z,
        m22: (-(f.z as int)) as i64,
        m23: 0i64,
        m30: (-v3_dot(eye, s)) as i64,
        m31: (-v3_dot(eye, u)) as i64,
        m32: v3_dot(eye, f) as i64,
        m33: SCALE,
    }
}

/// What `get_view_matrix` returns: the right-handed look-at matrix built
/// from the camera's position, target and up vector.
pub open spec fn view_matrix_spec(c: Camera) -> Mat4Fx {
    look_to_spec(c.position, v3_sub_spec(c.target, c.position), c.up)
}

/// What `get_projection_matrix` returns: a right-handed perspective matrix
/// from the field of view (radians), aspect ratio and depth planes.
pub open spec fn projection_matrix_spec(c: Camera) -> Mat4Fx {
    let half = div_trunc(c.fov as int, 2);
    let sin_fov = sin_fx_spec(half);
    let cos_fov = cos_fx_spec(half);
    let h = fx_div_spec(cos_fov, sin_fov);
    let w = fx_div_spec(h, c.aspect_ratio as int);
    let r = fx_div_spec(c.z_far as int, fx_sub_spec(c.z_near as int, c.z_far as int));
    Mat4Fx {
        m00: w as i64,
        m01: 0i64,
        m02: 0i64,
        m03: 0i64,
        m10: 0i64,
        m11: h as i64,
        m12: 0i64,
        m13: 0i64,
        m20: 0i64,
        m21: 0i64,
        m22: r as i64,
        m23: (-(SCALE as int)) as i64,
        m30: 0i64,
        m31: 0i64,
        m32: fx_mul_spec(r, c.z_near as int) as i64,
        m33: 0i64,
    }
}

impl Camera {
    /// View parameters within the fixed-point range.
    pub open spec fn wf(&self) -> bool {
        &&& self.position.sat_bounded()
        &&& self.target.sat_bounded()
        &&& self.up.sat_bounded()
    }

    pub fn new(
        position: Vec3Fx,
        target: Vec3Fx,
        up: Vec3Fx,
        fov: i64,
        aspect_ratio: i64,
        z_near: i64,
        z_far: i64,
        speed: i64,
    ) -> (c: Self)
        ensures
            c == (Camera { position, target, up, fov, aspect_ratio, z_near, z_far, speed }),
    {
        Self { position, target, up, fov, aspect_ratio, z_near, z_far, speed }
    }

    /// Builds the right-handed look-at matrix from position, target and the
    /// camera's up vector.  An up vector parallel to the view direction
    /// yields a degenerate matrix; guarding against that is the caller's
    /// responsibility, it is not trapped.
    pub fn get_view_matrix(&self) -> (m: Mat4Fx)
        requires
            self.wf(),
        ensures
            m == view_matrix_spec(*self),
            mat4_wf(m),
    {
        look_to_rh(self.position, self.target.sub(self.position), self.up)
    }

    /// Builds the perspective projection matrix.
    pub fn get_projection_matrix(&self) -> (m: Mat4Fx)
        ensures
            m == projection_matrix_spec(*self),
            mat4_wf(m),
    {
        let half = div_i128(self.fov as i128, 2) as i64;
        let sin_fov = sin_fx(half);
        let cos_fov = cos_fx(half);
        let h = fx_div(cos_fov, sin_fov);
        let w = fx_div(h, self.aspect_ratio);
        let r = fx_div(self.z_far, fx_sub(self.z_near, self.z_far));
        Mat4Fx {
            m00: w,
            m01: 0,
            m02: 0,
            m03: 0,
            m10: 0,
            m11: h,
            m12: 0,
            m13: 0,
            m20: 0,
            m21: 0,
            m22: r,
            m23: -SCALE,
            m30: 0,
            m31: 0,
            m32: fx_mul(r, self.z_near),
            m33: 0,
        }
    }

    pub fn set_target(&mut self, target: Vec3Fx)
        ensures
            *final(self) == (Camera { target, ..*old(self) }),
    {
        self.target = target;
    }

    /// The normalized direction from position toward the target.
    pub fn get_front(&self) -> (r: Vec3Fx)
        requires
            self.wf(),
        ensures
            r == v3_normalize_spec(v3_sub_spec(self.target, self.position)),
            r.sat_bounded(),
    {
        (self.target.sub(self.position)).normalize()
    }

    /// The normalized right-hand direction.
    pub fn get_right(&self) -> (r: Vec3Fx)
        requires
            self.wf(),
        ensures
            r == v3_normalize_spec(
                v3_cross_spec(v3_normalize_spec(v3_sub_spec(self.target, self.position)), self.up),
            ),
            r.sat_bounded(),
    {
        let front = self.get_front();
        (front.cross(self.up)).normalize()
    }

    /// The normalized local up direction.
    pub fn get_up(&self) -> (r: Vec3Fx)
        requires
            self.wf(),
        ensures
            r == v3_normalize_spec(
                v3_cross_spec(
                    v3_normalize_spec(
                        v3_cross_spec(
                            v3_normalize_spec(v3_sub_spec(self.target, self.position)),
                            self.up,
                        ),
                    ),
                    v3_normalize_spec(v3_sub_spec(self.target, self.position)),
                ),
            ),
            r.sat_bounded(),
    {
        let right = self.get_right();
        let front = self.get_front();
        (right.cross(front)).normalize()
    }
}

/// The right-handed look-to matrix.
fn look_to_rh(eye: Vec3Fx, dir: Vec3Fx, up: Vec3Fx) -> (m: Mat4Fx)
    requires
        eye.sat_bounded(),
        dir.sat_bounded(),
        up.sat_bounded(),
    ensures
        m == look_to_spec(eye, dir, up),
        mat4_wf(m),
{
    let f = dir.normalize();
    let s = (f.cross(up)).normalize();
    let u = s.cross(f);
    Mat4Fx {
        m00: s.x,
        m01: u.x,
        m02: -f.x,
        m03: 0,
        m10: s.y,
        m11: u.y,
        m12: -f.y,
        m13: 0,
        m20: s.z,
        m21: u.z,
        m22: -f.z,
        m23: 0,
        m30: -eye.dot(&s),
        m31: -eye.dot(&u),
        m32: eye.dot(&f),
        m33: SCALE,
    }
}

#[derive(Debug, Copy, Clone, PartialEq, Eq, Structural, Hash)]
pub struct CameraId(pub(crate) usize);

impl CameraId {
    /// The slot this identifier names in the store.
    pub closed spec fn spec_idx(&self) -> int {
        self.0 as int
    }
}

/// An arena of cameras with at most one active at a time.
pub struct CameraManager {
    pub cameras: Vec<Camera>,
    pub active_camera: Option<CameraId>,
}

impl CameraManager {
    pub open spec fn spec_cameras(&self) -> Seq<Camera> {
        self.cameras@
    }

    pub open spec fn spec_active(&self) -> Option<CameraId> {
        self.active_camera
    }

    /// An identifier is valid when it names a stored camera.
    pub open spec fn valid_id(&self, id: CameraId) -> bool {
        0 <= id.spec_idx() < self.spec_cameras().len()
    }

    pub fn new() -> (m: Self)
        ensures
            m.spec_cameras() == Seq::<Camera>::empty(),
            m.spec_active() is None,
    {
        Self { cameras: Vec::new(), active_camera: None }
    }

    /// Stores one camera and hands back its identifier.
    pub fn add_camera(&mut self, camera: Camera) -> (id: CameraId)
        ensures
            final(self).valid_id(id),
            id.spec_idx() == old(self).spec_cameras().len(),
            final(self).spec_cameras() == old(self).spec_cameras().push(camera),
            final(self).spec_active() == old(self).spec_active(),
    {
        let id = CameraId(self.cameras.len());
        self.cameras.push(camera);
        id
    }

    /// The active camera, if one has been made active; with none configured,
    /// rendering degenerates to a no-op for mesh nodes.
    pub fn get_active_camera(&self) -> (r: Option<&Camera>)
        ensures
            match self.spec_active() {
                Some(id) => {
                    if self.valid_id(id) {
                        r matches Some(c) && *c == self.spec_cameras()[id.spec_idx()]
                    } else {
                        r is None
                    }
                },
                None => r is None,
            },
    {
        match self.active_camera {
            Some(id) => {
                if id.0 < self.cameras.len() {
                    Some(&self.cameras[id.0])
                } else {
                    None
                }
            },
            None => None,
        }
    }

    /// A mutable borrow of the active camera, if a valid one is configured;
    /// the store afterwards holds whatever the caller wrote through it.
    pub fn get_active_camera_mut(&mut self) -> (r: Option<&mut Camera>)
        ensures
            final(self).spec_active() == old(self).spec_active(),
            match old(self).spec_active() {
                Some(id) => {
                    if old(self).valid_id(id) {
                        match r {
                            Some(c) => {
                                &&& *c == old(self).spec_cameras()[id.spec_idx()]
                                &&& final(self).spec_cameras() == old(self).spec_cameras().update(
                                    id.spec_idx(),
                                    *final(c),
                                )
                            },
                            None => false,
                        }
                    } else {
                        r is None && final(self).spec_cameras() == old(self).spec_cameras()
                    }
                },
                None => r is None && final(self).spec_cameras() == old(self).spec_cameras(),
            },
    {
        match self.active_camera {
            Some(id) => {
                if id.0 < self.cameras.len() {
                    Some(&mut self.cameras[id.0])
                } else {
                    None
                }
            },
            None => None,
        }
    }

    pub fn set_active_camera(&mut self, id: CameraId)
        ensures
            final(self).spec_active() == Some(id),
            final(self).spec_cameras() == old(self).spec_cameras(),
    {
        self.active_camera = Some(id);
    }

    /// Swings the active camera's target around its position by `angle`
    /// radians about `axis` (which should be normalized); with no valid
    /// active camera this is a no-op.
    pub fn rotate_active_camera(&mut self, angle: i64, axis: Vec3Fx)
        ensures
            final(self).spec_active() == old(self).spec_active(),
            match old(self).spec_active() {
                Some(id) => {
                    if old(self).valid_id(id) {
                        final(self).spec_cameras() == old(self).spec_cameras().update(
                            id.spec_idx(),
                            Camera {
                                target: rotated_target_spec(
                                    old(self).spec_cameras()[id.spec_idx()],
                                    angle as int,
                                    axis,
                                ),
                                ..old(self).spec_cameras()[id.spec_idx()]
                            },
                        )
                    } else {
                        final(self).spec_cameras() == old(self).spec_cameras()
                    }
                },
                None => final(self).spec_cameras() == old(self).spec_cameras(),
            },
    {
        let active = self.active_camera;
        match active {
            Some(id) => {
                if id.0 < self.cameras.len() {
                    let rotation = from_axis_angle(axis, angle);
                    let cam = self.cameras[id.0];
                    let direction = (cam.target.sub(cam.position)).normalize();
                    let rotated = rotation.transform4(
                        Vec4Fx::new(direction.x, direction.y, direction.z, 0),
                    );
                    let new_target = cam.position.add(
                        Vec3Fx::new(rotated.x, rotated.y, rotated.z),
                    );
                    self.cameras[id.0] = Camera { target: new_target, ..cam };
                }
            },
            None => {},
        }
    }
}

/// The rotation matrix of `angle` radians about `axis` (Rodrigues form on the
/// fixed grid).
pub open spec fn axis_angle_matrix(axis: Vec3Fx, angle: int) -> Mat4Fx {
    let sin = sin_fx_spec(angle);
    let cos = cos_fx_spec(angle);
    let xsin = fx_mul_spec(axis.x as int, sin);
    let ysin = fx_mul_spec(axis.y as int, sin);
    let zsin = fx_mul_spec(axis.z as int, sin);
    let x2 = fx_mul_spec(axis.x as int, axis.x as int);
    let y2 = fx_mul_spec(axis.y as int, axis.y as int);
    let z2 = fx_mul_spec(axis.z as int, axis.z as int);
    let omc = fx_sub_spec(SCALE as int, cos);
    let xyomc = fx_mul_spec(fx_mul_spec(axis.x as int, axis.y as int), omc);
    let xzomc = fx_mul_spec(fx_mul_spec(axis.x as int, axis.z as int), omc);
    let yzomc = fx_mul_spec(fx_mul_spec(axis.y as int, axis.z as int), omc);
    Mat4Fx {
        m00: fx_add_spec(fx_mul_spec(x2, omc), cos) as i64,
        m01: fx_add_spec(xyomc, zsin) as i64,
        m02: fx_sub_spec(xzomc, ysin) as i64,
        m03: 0i64,
        m10: fx_sub_spec(xyomc, zsin) as i64,
        m11: fx_add_spec(fx_mul_spec(y2, omc), cos) as i64,
        m12: fx_add_spec(yzomc, xsin) as i64,
        m13: 0i64,
        m20: fx_add_spec(xzomc, ysin) as i64,
        m21: fx_sub_spec(yzomc, xsin) as i64,
        m22: fx_add_spec(fx_mul_spec(z2, omc), cos) as i64,
        m23: 0i64,
        m30: 0i64,
        m31: 0i64,
        m32: 0i64,
        m33: SCALE,
    }
}

/// Where the rotation carries the active camera's target: the normalized
/// view direction, rotated, re-anchored at the position.
pub open spec fn rotated_target_spec(cam: Camera, angle: int, axis: Vec3Fx) -> Vec3Fx {
    let m = axis_angle_matrix(axis, angle);
    let d = v3_normalize_spec(v3_sub_spec(cam.target, cam.position));
    v3_add_spec(
        cam.position,
        Vec3Fx {
            x: lin4_x(m, d.x as int, d.y as int, d.z as int, 0) as i64,
            y: lin4_y(m, d.x as int, d.y as int, d.z as int, 0) as i64,
            z: lin4_z(m, d.x as int, d.y as int, d.z as int, 0) as i64,
        },
    )
}

/// The rotation matrix of `angle` radians about `axis`.
fn from_axis_angle(axis: Vec3Fx, angle: i64) -> (m: Mat4Fx)
    ensures
        m == axis_angle_matrix(axis, angle as int),
        mat4_wf(m),
{
    let sin = sin_fx(angle);
    let cos = cos_fx(angle);
    let xsin = fx_mul(axis.x, sin);
    let ysin = fx_mul(axis.y, sin);
    let zsin = fx_mul(axis.z, sin);
    let x2 = fx_mul(axis.x, axis.x);
    let y2 = fx_mul(axis.y, axis.y);
    let z2 = fx_mul(axis.z, axis.z);
    let omc = fx_sub(SCALE, cos);
    let xyomc = fx_mul(fx_mul(axis.x, axis.y), omc);
    let xzomc = fx_mul(fx_mul(axis.x, axis.z), omc);
    let yzomc = fx_mul(fx_mul(axis.y, axis.z), omc);
    Mat4Fx {
        m00: crate::fixed::fx_add(fx_mul(x2, omc), cos),
        m01: crate::fixed::fx_add(xyomc, zsin),
        m02: fx_sub(xzomc, ysin),
        m03: 0,
        m10: fx_sub(xyomc, zsin),
        m11: crate::fixed::fx_add(fx_mul(y2, omc), cos),
        m12: crate::fixed::fx_add(yzomc, xsin),
        m13: 0,
        m20: crate::fixed::fx_add(xzomc, ysin),
        m21: fx_sub(yzomc, xsin),
        m22: crate::fixed::fx_add(fx_mul(z2, omc), cos),
        m23: 0,
        m30: 0,
        m31: 0,
        m32: 0,
        m33: SCALE,
    }
}

} // verus!
